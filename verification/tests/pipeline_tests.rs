use hayai::datum::{Datum, Member};
use hayai::error::{ApiError, ErrorKind};
use hayai::pipeline::{
    extract_token, read_path_value, step, Action, Argument, Binding, Dispatch, Event, Reply,
    Request, Stage,
};
use hayai::route::{describe_route, Input, InputRole, Method, ParamDecl, PathKind, RouteDescriptor};
use hayai::validation::{Check, ConstraintSet, Rule};

fn input(name: &str, type_label: &str, role: InputRole) -> Input {
    Input { name: name.to_string(), type_label: type_label.to_string(), role }
}

fn route(method: Method, path: &str, handler: &str, inputs: Vec<Input>, security: Vec<&str>) -> RouteDescriptor {
    let params: Vec<ParamDecl> = inputs
        .iter()
        .map(|i| ParamDecl {
            name: i.name.clone(),
            type_label: match i.role {
                InputRole::Dependency => "Dep".to_string(),
                _ => i.type_label.clone(),
            },
        })
        .collect();
    RouteDescriptor {
        method,
        info: describe_route(method, path, handler, &params, Some("User")),
        inputs,
        query: vec![],
        response: None,
        tags: vec![],
        security: security.into_iter().map(String::from).collect(),
        summary: None,
        description: None,
    }
}

fn get_user() -> RouteDescriptor {
    route(
        Method::Get,
        "/users/{id}",
        "get_user",
        vec![
            input("id", "i64", InputRole::Path(PathKind::Integer)),
            input("db", "Database", InputRole::Dependency),
        ],
        vec![],
    )
}

fn create_user() -> RouteDescriptor {
    route(
        Method::Post,
        "/users",
        "create_user",
        vec![
            input("body", "CreateUser", InputRole::Body),
            input("db", "Database", InputRole::Dependency),
        ],
        vec![],
    )
}

fn get_me() -> RouteDescriptor {
    route(
        Method::Get,
        "/me",
        "get_me",
        vec![input("auth", "Auth", InputRole::Credentials)],
        vec!["bearer"],
    )
}

fn create_user_rules() -> ConstraintSet {
    ConstraintSet {
        checks: vec![
            Check { field: "name".to_string(), rule: Rule::MinLength(1) },
            Check { field: "name".to_string(), rule: Rule::MaxLength(100) },
            Check { field: "email".to_string(), rule: Rule::Email },
        ],
    }
}

fn no_rules() -> ConstraintSet {
    ConstraintSet { checks: vec![] }
}

fn database() -> Vec<String> {
    vec!["Database".to_string()]
}

fn arrival(bindings: Vec<(&str, &str)>) -> Event {
    Event::Received(Request {
        bindings: bindings
            .into_iter()
            .map(|(n, t)| Binding { name: n.to_string(), text: t.to_string() })
            .collect(),
        authorization: None,
        api_key: None,
    })
}

fn arrival_with(authorization: Option<&str>, api_key: Option<&str>) -> Event {
    Event::Received(Request {
        bindings: vec![],
        authorization: authorization.map(String::from),
        api_key: api_key.map(String::from),
    })
}

fn user_body(name: &str, email: &str) -> Datum {
    Datum::Object(vec![
        Member { name: "name".to_string(), value: Datum::Text(name.to_string()) },
        Member { name: "email".to_string(), value: Datum::Text(email.to_string()) },
    ])
}

fn failure(action: Action) -> ApiError {
    match action {
        Action::Respond(Reply::Failure(e)) => e,
        other => panic!("expected a failure, got {:?}", other),
    }
}

#[test]
fn empty_name_ends_in_422_with_the_violation() {
    // Body {"name": "", "email": "bob@example.com"} against minLength(name) = 1
    // and email(email).
    let route = create_user();
    let (state, action) = step(&route, &create_user_rules(), &database(), Dispatch::new(), arrival(vec![]));
    assert!(matches!(action, Action::DecodeBody));
    assert_eq!(state.stage, Stage::BodyExtraction);
    let (state, action) = step(
        &route,
        &create_user_rules(),
        &database(),
        state,
        Event::BodyDecoded(user_body("", "bob@example.com")),
    );
    assert_eq!(state.stage, Stage::Done);
    let error = failure(action);
    assert_eq!(error.status(), 422);
    assert_eq!(error.kind, ErrorKind::ValidationError);
    assert_eq!(error.error, "Validation failed");
    assert!(error.details.iter().any(|d| d.contains("name")));
    let json = error.to_json_value();
    assert_eq!(json["error"], "Validation failed");
    assert!(!json["details"].as_array().unwrap().is_empty());
}

#[test]
fn invalid_email_is_named_in_the_details() {
    let route = create_user();
    let (state, _) = step(&route, &create_user_rules(), &database(), Dispatch::new(), arrival(vec![]));
    let (_, action) = step(
        &route,
        &create_user_rules(),
        &database(),
        state,
        Event::BodyDecoded(user_body("Bob", "notanemail")),
    );
    let error = failure(action);
    assert_eq!(error.status(), 422);
    assert!(error.details.iter().any(|d| d.contains("email")));
}

#[test]
fn text_for_an_integer_parameter_ends_in_400() {
    // GET /users/{id} called with /users/abc.
    let route = get_user();
    let (state, action) = step(&route, &no_rules(), &database(), Dispatch::new(), arrival(vec![("id", "abc")]));
    assert_eq!(state.stage, Stage::Done);
    let error = failure(action);
    assert_eq!(error.status(), 400);
    assert_eq!(error.kind, ErrorKind::BadRequest);
    assert_eq!(error.error, "Invalid path param: id");
}

#[test]
fn missing_binding_ends_in_400() {
    let route = get_user();
    let (_, action) = step(&route, &no_rules(), &database(), Dispatch::new(), arrival(vec![]));
    assert_eq!(failure(action).status(), 400);
}

#[test]
fn missing_credential_ends_in_401() {
    let route = get_me();
    let (state, action) = step(&route, &no_rules(), &vec![], Dispatch::new(), arrival_with(None, None));
    assert_eq!(state.stage, Stage::Done);
    let error = failure(action);
    assert_eq!(error.status(), 401);
    assert_eq!(error.error, "Missing authorization header");
    assert_eq!(error.to_json_value()["error"], "Missing authorization header");
}

#[test]
fn wrong_authorization_format_ends_in_401() {
    let route = get_me();
    let (_, action) = step(&route, &no_rules(), &vec![], Dispatch::new(), arrival_with(Some("Basic x"), None));
    let error = failure(action);
    assert_eq!(error.status(), 401);
    assert_eq!(error.error, "Invalid authorization header");
}

#[test]
fn bearer_token_is_handed_to_the_validator() {
    let route = get_me();
    let (state, action) = step(
        &route,
        &no_rules(),
        &vec![],
        Dispatch::new(),
        arrival_with(Some("Bearer valid-token-42"), None),
    );
    assert_eq!(state.stage, Stage::Authentication);
    match action {
        Action::Authenticate(token) => assert_eq!(token, "valid-token-42"),
        other => panic!("expected the token, got {:?}", other),
    }
    let (state, action) = step(&route, &no_rules(), &vec![], state, Event::Authenticated);
    assert_eq!(state.stage, Stage::Invocation);
    match action {
        Action::Invoke { arguments, body } => {
            assert_eq!(arguments.len(), 1);
            assert!(matches!(arguments[0], Argument::Credentials));
            assert!(body.is_none());
        }
        other => panic!("expected the call, got {:?}", other),
    }
}

#[test]
fn rejected_token_ends_in_401_with_the_reason() {
    let route = get_me();
    let (state, _) = step(&route, &no_rules(), &vec![], Dispatch::new(), arrival_with(Some("Bearer bad"), None));
    let (state, action) = step(&route, &no_rules(), &vec![], state, Event::Rejected("Invalid token".to_string()));
    assert_eq!(state.stage, Stage::Done);
    let error = failure(action);
    assert_eq!(error.status(), 401);
    assert_eq!(error.error, "Invalid token");
}

#[test]
fn api_key_stands_in_for_the_bearer_token() {
    assert_eq!(extract_token(&None, &Some("api-key-123".to_string())).unwrap(), "api-key-123");
    assert_eq!(
        extract_token(&Some("Bearer abc".to_string()), &Some("key".to_string())).unwrap(),
        "abc"
    );
    assert_eq!(
        extract_token(&Some("Basic x".to_string()), &Some("key".to_string())).unwrap(),
        "key"
    );
    assert_eq!(extract_token(&Some("Bearer ".to_string()), &None).unwrap(), "");
    assert_eq!(extract_token(&Some("bearer abc".to_string()), &None).unwrap_err(), "Invalid authorization header");
    assert_eq!(extract_token(&None, &None).unwrap_err(), "Missing authorization header");
}

#[test]
fn unregistered_dependency_ends_in_500() {
    let route = get_user();
    let (state, action) = step(&route, &no_rules(), &vec![], Dispatch::new(), arrival(vec![("id", "1")]));
    assert_eq!(state.stage, Stage::Done);
    let error = failure(action);
    assert_eq!(error.status(), 500);
    assert_eq!(error.error, "Missing dependency: Database");
}

#[test]
fn path_failure_comes_before_the_missing_dependency() {
    let route = get_user();
    let (_, action) = step(&route, &no_rules(), &vec![], Dispatch::new(), arrival(vec![("id", "abc")]));
    assert_eq!(failure(action).status(), 400);
}

#[test]
fn malformed_body_ends_in_400() {
    let route = create_user();
    let (state, _) = step(&route, &create_user_rules(), &database(), Dispatch::new(), arrival(vec![]));
    let (state, action) = step(
        &route,
        &create_user_rules(),
        &database(),
        state,
        Event::BodyMalformed("expected value at line 1".to_string()),
    );
    assert_eq!(state.stage, Stage::Done);
    let error = failure(action);
    assert_eq!(error.status(), 400);
    assert_eq!(error.error, "Invalid body: expected value at line 1");
}

#[test]
fn successful_get_runs_through_every_stage() {
    let route = get_user();
    let (state, action) = step(&route, &no_rules(), &database(), Dispatch::new(), arrival(vec![("id", "42")]));
    assert_eq!(state.stage, Stage::Invocation);
    match action {
        Action::Invoke { arguments, body } => {
            assert_eq!(arguments.len(), 2);
            assert!(matches!(arguments[0], Argument::Value(Datum::Integer(42))));
            assert!(matches!(&arguments[1], Argument::Dependency(name) if name == "Database"));
            assert!(body.is_none());
        }
        other => panic!("expected the call, got {:?}", other),
    }
    let (state, action) = step(&route, &no_rules(), &database(), state, Event::Returned);
    assert_eq!(state.stage, Stage::ResponseEncoding);
    assert!(matches!(action, Action::Encode));
    let (state, action) = step(
        &route,
        &no_rules(),
        &database(),
        state,
        Event::Encoded("{\"id\":42}".to_string()),
    );
    assert_eq!(state.stage, Stage::Done);
    match action {
        Action::Respond(reply) => {
            assert_eq!(reply.status(), 200);
            match reply {
                Reply::Success { status, body } => {
                    assert_eq!(status, 200);
                    assert_eq!(body, "{\"id\":42}");
                }
                Reply::Failure(e) => panic!("unexpected failure {:?}", e),
            }
        }
        other => panic!("expected the response, got {:?}", other),
    }
}

#[test]
fn successful_post_keeps_the_order_of_the_parameters() {
    let route = create_user();
    let (state, _) = step(&route, &create_user_rules(), &database(), Dispatch::new(), arrival(vec![]));
    let (state, action) = step(
        &route,
        &create_user_rules(),
        &database(),
        state,
        Event::BodyDecoded(user_body("Bob", "bob@example.com")),
    );
    assert_eq!(state.stage, Stage::Invocation);
    match action {
        Action::Invoke { arguments, body } => {
            assert!(matches!(arguments[0], Argument::Body));
            assert!(matches!(&arguments[1], Argument::Dependency(_)));
            assert!(body.is_some());
        }
        other => panic!("expected the call, got {:?}", other),
    }
    let (state, _) = step(&route, &create_user_rules(), &database(), state, Event::Returned);
    let (_, action) = step(&route, &create_user_rules(), &database(), state, Event::Encoded("{}".to_string()));
    match action {
        Action::Respond(reply) => assert_eq!(reply.status(), 201),
        other => panic!("expected the response, got {:?}", other),
    }
}

#[test]
fn delete_answers_204() {
    let route = route(
        Method::Delete,
        "/items/{id}",
        "delete_item",
        vec![input("id", "i64", InputRole::Path(PathKind::Integer))],
        vec![],
    );
    let (state, _) = step(&route, &no_rules(), &vec![], Dispatch::new(), arrival(vec![("id", "1")]));
    let (state, _) = step(&route, &no_rules(), &vec![], state, Event::Returned);
    let (_, action) = step(&route, &no_rules(), &vec![], state, Event::Encoded("null".to_string()));
    match action {
        Action::Respond(reply) => assert_eq!(reply.status(), 204),
        other => panic!("expected the response, got {:?}", other),
    }
    assert_eq!(Method::Put.success_status(), 200);
}

#[test]
fn handler_errors_keep_their_kind() {
    let route = get_user();
    let (state, _) = step(&route, &no_rules(), &database(), Dispatch::new(), arrival(vec![("id", "7")]));
    let (state, action) = step(
        &route,
        &no_rules(),
        &database(),
        state,
        Event::Failed(ApiError::not_found("User 7 not found".to_string())),
    );
    assert_eq!(state.stage, Stage::Done);
    let error = failure(action);
    assert_eq!(error.status(), 404);
    assert_eq!(error.error, "User 7 not found");
    assert!(error.to_json_value().get("details").is_none());
}

#[test]
fn failed_encoding_ends_in_500() {
    let route = get_user();
    let (state, _) = step(&route, &no_rules(), &database(), Dispatch::new(), arrival(vec![("id", "7")]));
    let (state, _) = step(&route, &no_rules(), &database(), state, Event::Returned);
    let (_, action) = step(&route, &no_rules(), &database(), state, Event::NotEncoded("key must be a string".to_string()));
    let error = failure(action);
    assert_eq!(error.status(), 500);
    assert_eq!(error.error, "Response serialization failed: key must be a string");
}

#[test]
fn event_out_of_turn_ends_in_500() {
    let route = get_user();
    let (state, action) = step(&route, &no_rules(), &database(), Dispatch::new(), Event::Returned);
    assert_eq!(state.stage, Stage::Done);
    assert_eq!(failure(action).status(), 500);
    let (_, action) = step(&route, &no_rules(), &database(), state, arrival(vec![("id", "1")]));
    assert_eq!(failure(action).error, "Unexpected event");
}

#[test]
fn path_values_are_read_by_kind() {
    assert!(matches!(read_path_value(PathKind::Integer, "-3"), Some(Datum::Integer(-3))));
    assert!(read_path_value(PathKind::Integer, "3.0").is_none());
    assert!(matches!(read_path_value(PathKind::Text, "abc"), Some(Datum::Text(t)) if t == "abc"));
    assert!(matches!(read_path_value(PathKind::Boolean, "true"), Some(Datum::Bool(true))));
    assert!(matches!(read_path_value(PathKind::Boolean, "false"), Some(Datum::Bool(false))));
    assert!(read_path_value(PathKind::Boolean, "yes").is_none());
}

#[test]
fn errors_have_their_status() {
    assert_eq!(ApiError::bad_request("x".to_string()).status(), 400);
    assert_eq!(ApiError::validation_error(vec![]).status(), 422);
    assert_eq!(ApiError::unauthorized("x").status(), 401);
    assert_eq!(ApiError::not_found("x".to_string()).status(), 404);
    assert_eq!(ApiError::internal("x".to_string()).status(), 500);
}

#[test]
fn security_list_alone_demands_a_credential() {
    // The route requires a scheme; its handler has no parameter for the
    // credentials.
    let route = route(
        Method::Get,
        "/reports/{id}",
        "get_report",
        vec![input("id", "i64", InputRole::Path(PathKind::Integer))],
        vec!["bearer"],
    );
    let (state, action) = step(&route, &no_rules(), &vec![], Dispatch::new(), arrival(vec![("id", "1")]));
    assert_eq!(state.stage, Stage::Done);
    let error = failure(action);
    assert_eq!(error.status(), 401);
    assert_eq!(error.error, "Missing authorization header");

    let with_token = Event::Received(Request {
        bindings: vec![Binding { name: "id".to_string(), text: "1".to_string() }],
        authorization: Some("Bearer t".to_string()),
        api_key: None,
    });
    let (state, action) = step(&route, &no_rules(), &vec![], Dispatch::new(), with_token);
    assert_eq!(state.stage, Stage::Authentication);
    assert!(matches!(action, Action::Authenticate(_)));
    let (state, action) = step(&route, &no_rules(), &vec![], state, Event::Rejected("Invalid token".to_string()));
    assert_eq!(state.stage, Stage::Done);
    assert_eq!(failure(action).status(), 401);
}

#[test]
fn route_without_security_asks_for_no_credential() {
    let route = get_user();
    let (state, action) = step(&route, &no_rules(), &database(), Dispatch::new(), arrival(vec![("id", "1")]));
    assert_eq!(state.stage, Stage::Invocation);
    assert!(matches!(action, Action::Invoke { .. }));
}
