use hayai::assembler::{assemble, operation_for};
use hayai::descriptor::{FieldDescriptor, PrimitiveKind, TypeDescriptor};
use hayai::names::NameMap;
use hayai::openapi::{Info, SecurityScheme};
use hayai::registry::{Registry, RegistryError, SchemaDescriptor};
use hayai::route::{
    describe_route, Input, InputRole, Method, ParamDecl, PathKind, QueryParam, RouteDescriptor,
};
use hayai::validation::{Check, ConstraintSet, Rule};

fn text_kind() -> TypeDescriptor {
    TypeDescriptor::Primitive(PrimitiveKind::String, None)
}

fn whole_kind() -> TypeDescriptor {
    TypeDescriptor::Primitive(PrimitiveKind::Integer, None)
}

fn with(name: &str, ty: TypeDescriptor) -> FieldDescriptor {
    FieldDescriptor { name: name.to_string(), ty, required: true }
}

fn user_type() -> TypeDescriptor {
    TypeDescriptor::Object(
        "User".to_string(),
        vec![with("id", whole_kind()), with("name", text_kind()), with("email", text_kind())],
    )
}

fn create_user_type() -> TypeDescriptor {
    TypeDescriptor::Object(
        "CreateUser".to_string(),
        vec![with("name", text_kind()), with("email", text_kind())],
    )
}

fn create_user_rules() -> ConstraintSet {
    ConstraintSet {
        checks: vec![
            Check { field: "name".to_string(), rule: Rule::MinLength(1) },
            Check { field: "name".to_string(), rule: Rule::MaxLength(100) },
            Check { field: "email".to_string(), rule: Rule::Email },
        ],
    }
}

fn plain_route(
    method: Method,
    path: &str,
    handler: &str,
    params: Vec<(&str, &str)>,
    response: Option<TypeDescriptor>,
) -> RouteDescriptor {
    let decls: Vec<ParamDecl> = params
        .iter()
        .map(|(n, t)| ParamDecl { name: n.to_string(), type_label: t.to_string() })
        .collect();
    RouteDescriptor {
        method,
        info: describe_route(method, path, handler, &decls, Some("User")),
        inputs: vec![],
        query: vec![],
        response,
        tags: vec!["users".to_string()],
        security: vec![],
        summary: None,
        description: None,
    }
}

fn get_user_route() -> RouteDescriptor {
    let mut route = plain_route(
        Method::Get,
        "/users/{id}",
        "get_user",
        vec![("id", "i64"), ("db", "Dep")],
        Some(TypeDescriptor::Reference("User".to_string())),
    );
    route.inputs = vec![Input {
        name: "id".to_string(),
        type_label: "i64".to_string(),
        role: InputRole::Path(PathKind::Integer),
    }];
    route.description = Some("Get a user by ID".to_string());
    route
}

fn create_user_route() -> RouteDescriptor {
    let mut route = plain_route(
        Method::Post,
        "/users",
        "create_user",
        vec![("body", "CreateUser"), ("db", "Dep")],
        Some(TypeDescriptor::Reference("User".to_string())),
    );
    route.description = Some("Create a new user".to_string());
    route
}

fn list_users_route() -> RouteDescriptor {
    let mut route = plain_route(
        Method::Get,
        "/users",
        "list_users",
        vec![("db", "Dep")],
        Some(TypeDescriptor::Sequence(Box::new(TypeDescriptor::Object("User".to_string(), vec![
            with("id", whole_kind()),
            with("name", text_kind()),
            with("email", text_kind()),
        ])))),
    );
    route.query = vec![
        QueryParam { name: "page".to_string(), kind: "integer".to_string(), required: false },
        QueryParam { name: "limit".to_string(), kind: "integer".to_string(), required: false },
    ];
    route
}

fn secured_route() -> RouteDescriptor {
    let mut route = plain_route(Method::Get, "/api/me", "get_me", vec![], None);
    route.security = vec!["bearer".to_string()];
    route
}

fn declared_types() -> Vec<SchemaDescriptor> {
    vec![
        SchemaDescriptor {
            name: "User".to_string(),
            ty: user_type(),
            constraints: ConstraintSet { checks: vec![] },
        },
        SchemaDescriptor {
            name: "CreateUser".to_string(),
            ty: create_user_type(),
            constraints: create_user_rules(),
        },
    ]
}

fn bearer_schemes() -> NameMap<SecurityScheme> {
    let mut schemes = NameMap::new();
    schemes.insert(
        "bearerAuth".to_string(),
        SecurityScheme { kind: "http".to_string(), scheme: "bearer".to_string() },
    );
    schemes
}

fn test_info() -> Info {
    Info { title: "Test API".to_string(), version: "0.1.0".to_string() }
}

fn document() -> serde_json::Value {
    let routes = vec![get_user_route(), create_user_route(), list_users_route(), secured_route()];
    assemble(&routes, &declared_types(), bearer_schemes(), test_info()).unwrap().to_json()
}

#[test]
fn sequence_response_is_an_array_of_references() {
    // A route whose response type is Sequence(Object("User")).
    let body = document();
    let schema = &body["paths"]["/users"]["get"]["responses"]["200"]["content"]["application/json"]["schema"];
    assert_eq!(schema["type"], "array");
    assert_eq!(schema["items"]["$ref"], "#/components/schemas/User");
    let mut expected = serde_json::Map::new();
    expected.insert("type".to_string(), serde_json::Value::String("array".to_string()));
    let mut items = serde_json::Map::new();
    items.insert("$ref".to_string(), serde_json::Value::String("#/components/schemas/User".to_string()));
    expected.insert("items".to_string(), serde_json::Value::Object(items));
    assert_eq!(*schema, serde_json::Value::Object(expected));
}

#[test]
fn document_has_version_info_paths_and_components() {
    let body = document();
    assert_eq!(body["openapi"], "3.1.0");
    assert_eq!(body["info"]["title"], "Test API");
    assert_eq!(body["info"]["version"], "0.1.0");
    assert!(body["paths"].as_object().unwrap().contains_key("/users/{id}"));
    assert!(body["paths"].as_object().unwrap().contains_key("/users"));
    assert!(body["components"]["schemas"].as_object().unwrap().contains_key("User"));
    assert!(body["components"]["schemas"].as_object().unwrap().contains_key("CreateUser"));
}

#[test]
fn two_methods_share_one_path() {
    let body = document();
    let users = body["paths"]["/users"].as_object().unwrap();
    assert_eq!(users.len(), 2);
    assert!(users.contains_key("get"));
    assert!(users.contains_key("post"));
    assert_eq!(body["paths"].as_object().unwrap().len(), 3);
}

#[test]
fn error_responses_follow_the_route() {
    let body = document();
    assert!(body["components"]["schemas"]["ApiError"].is_object());

    let post_users = &body["paths"]["/users"]["post"];
    assert!(post_users["responses"]["400"].is_object(), "should have 400 response");
    assert!(post_users["responses"]["422"].is_object(), "should have 422 for body endpoints");
    assert!(post_users["responses"]["500"].is_object(), "should have 500 response");

    let get_user = &body["paths"]["/users/{id}"]["get"];
    assert!(get_user["responses"]["400"].is_object());
    assert!(get_user["responses"]["500"].is_object());
    assert!(!get_user["responses"]["422"].is_object(), "GET without body should not have 422");
    assert!(!get_user["responses"]["401"].is_object());
}

#[test]
fn success_status_follows_the_method() {
    let body = document();
    let post_users = &body["paths"]["/users"]["post"];
    assert!(post_users["responses"]["201"].is_object(), "POST should default to 201");
    assert_eq!(post_users["responses"]["201"]["description"], "Created");
    let get_user = &body["paths"]["/users/{id}"]["get"];
    assert!(get_user["responses"]["200"].is_object(), "GET should default to 200");
    assert_eq!(get_user["responses"]["200"]["description"], "OK");
    assert_eq!(
        get_user["responses"]["200"]["content"]["application/json"]["schema"]["$ref"],
        "#/components/schemas/User"
    );
}

#[test]
fn operation_lists_tags_description_and_parameters() {
    let body = document();
    let get_user = &body["paths"]["/users/{id}"]["get"];
    assert!(get_user["tags"].as_array().unwrap().iter().any(|t| t == "users"));
    assert_eq!(get_user["description"], "Get a user by ID");
    assert_eq!(get_user["operationId"], "get_user");
    let params = get_user["parameters"].as_array().unwrap();
    assert_eq!(params.len(), 1);
    assert_eq!(params[0]["name"], "id");
    assert_eq!(params[0]["in"], "path");
    assert_eq!(params[0]["required"], true);
    assert_eq!(params[0]["schema"]["type"], "integer");
    assert_eq!(body["paths"]["/users"]["post"]["description"], "Create a new user");
}

#[test]
fn query_parameters_are_listed() {
    let body = document();
    let params = body["paths"]["/users"]["get"]["parameters"].as_array().unwrap();
    let names: Vec<&str> = params.iter().map(|p| p["name"].as_str().unwrap()).collect();
    assert!(names.contains(&"page"));
    assert!(names.contains(&"limit"));
    for p in params {
        assert_eq!(p["in"], "query");
        assert_eq!(p["required"], false);
    }
}

#[test]
fn request_body_refers_to_the_body_type() {
    let body = document();
    let request = &body["paths"]["/users"]["post"]["requestBody"];
    assert_eq!(request["required"], true);
    assert_eq!(
        request["content"]["application/json"]["schema"]["$ref"],
        "#/components/schemas/CreateUser"
    );
    assert!(body["paths"]["/users/{id}"]["get"].get("requestBody").is_none());
}

#[test]
fn secured_route_requires_the_scheme() {
    let body = document();
    let op = &body["paths"]["/api/me"]["get"];
    let sec = op["security"].as_array().expect("should have security");
    assert!(sec.iter().any(|s| s.get("bearerAuth").is_some()));
    assert!(op["responses"]["401"].is_object());
    let scheme = &body["components"]["securitySchemes"]["bearerAuth"];
    assert_eq!(scheme["type"], "http");
    assert_eq!(scheme["scheme"], "bearer");
    let public = &body["paths"]["/users"]["get"];
    assert!(public.get("security").is_none());
}

#[test]
fn components_carry_the_declared_constraints() {
    let body = document();
    let create = &body["components"]["schemas"]["CreateUser"];
    assert_eq!(create["type"], "object");
    assert_eq!(create["properties"]["name"]["minLength"], 1);
    assert_eq!(create["properties"]["name"]["maxLength"], 100);
    assert_eq!(create["properties"]["email"]["format"], "email");
    assert_eq!(create["required"][0], "name");
    let user = &body["components"]["schemas"]["User"];
    assert!(user["properties"]["name"].get("minLength").is_none());
    let error = &body["components"]["schemas"]["ApiError"];
    assert_eq!(error["properties"]["error"]["type"], "string");
    assert_eq!(error["properties"]["details"]["items"]["type"], "string");
}

#[test]
fn no_security_schemes_no_member() {
    let doc = assemble(&vec![], &vec![], NameMap::new(), test_info()).unwrap().to_json();
    assert!(doc["components"].get("securitySchemes").is_none());
    assert_eq!(doc["paths"].as_object().unwrap().len(), 0);
    assert_eq!(doc["components"]["schemas"].as_object().unwrap().len(), 1);
}

#[test]
fn two_shapes_under_one_name_stop_the_assembly() {
    let other_user = TypeDescriptor::Object("User".to_string(), vec![with("login", text_kind())]);
    let mut types = declared_types();
    types.push(SchemaDescriptor {
        name: "Account".to_string(),
        ty: TypeDescriptor::Object("Account".to_string(), vec![with("owner", other_user)]),
        constraints: ConstraintSet { checks: vec![] },
    });
    let collision = assemble(&vec![], &types, NameMap::new(), test_info()).unwrap_err();
    assert_eq!(collision.name, "User");
}

#[test]
fn operation_of_a_route_alone() {
    let op = operation_for(&create_user_route());
    assert_eq!(op.operation_id.as_deref(), Some("create_user"));
    assert_eq!(op.responses.len(), 4);
    assert_eq!(op.responses.name_at(0), "201");
    assert!(op.request_body.is_some());
}

#[test]
fn registry_takes_each_handler_and_schema_once() {
    let mut registry = Registry::new();
    assert!(registry.register_route(get_user_route()).is_ok());
    assert!(registry.register_route(create_user_route()).is_ok());
    match registry.register_route(get_user_route()) {
        Err(RegistryError::DuplicateHandler(name)) => assert_eq!(name, "get_user"),
        other => panic!("expected a duplicate handler, got {:?}", other),
    }
    assert_eq!(registry.all_routes().len(), 2);
    assert_eq!(registry.find_route("create_user").unwrap().info.path, "/users");
    assert!(registry.find_route("missing").is_none());

    for schema in declared_types() {
        assert!(registry.register_schema(schema).is_ok());
    }
    let again = SchemaDescriptor {
        name: "User".to_string(),
        ty: user_type(),
        constraints: ConstraintSet { checks: vec![] },
    };
    match registry.register_schema(again) {
        Err(RegistryError::DuplicateSchema(name)) => assert_eq!(name, "User"),
        other => panic!("expected a duplicate schema, got {:?}", other),
    }
    assert_eq!(registry.all_schemas().len(), 2);
    assert!(registry.find_schema("CreateUser").is_some());
    assert!(registry.find_schema("Nothing").is_none());

    let doc = assemble(registry.all_routes(), registry.all_schemas(), NameMap::new(), test_info())
        .unwrap()
        .to_json();
    assert!(doc["paths"]["/users/{id}"]["get"].is_object());
}

#[test]
fn nested_objects_carry_the_constraints_declared_for_their_name() {
    let item = || {
        TypeDescriptor::Object(
            "ValidatedItem".to_string(),
            vec![with("code", text_kind()), with("price", whole_kind())],
        )
    };
    let order = TypeDescriptor::Object(
        "Order".to_string(),
        vec![with("id", whole_kind()), with("items", TypeDescriptor::Sequence(Box::new(item())))],
    );
    let types = vec![
        SchemaDescriptor {
            name: "Order".to_string(),
            ty: order,
            constraints: ConstraintSet { checks: vec![] },
        },
        SchemaDescriptor {
            name: "ValidatedItem".to_string(),
            ty: item(),
            constraints: ConstraintSet {
                checks: vec![
                    Check { field: "code".to_string(), rule: Rule::MinLength(1) },
                    Check { field: "code".to_string(), rule: Rule::MaxLength(100) },
                    Check { field: "price".to_string(), rule: Rule::Minimum(1) },
                    Check { field: "price".to_string(), rule: Rule::Maximum(10000) },
                ],
            },
        },
    ];
    let doc = assemble(&vec![], &types, NameMap::new(), test_info()).unwrap().to_json();
    let schemas = doc["components"]["schemas"].as_object().unwrap();
    // Order, ValidatedItem and the schema of errors, each once.
    assert_eq!(schemas.len(), 3);
    let item = &schemas["ValidatedItem"];
    assert_eq!(item["properties"]["code"]["minLength"], 1);
    assert_eq!(item["properties"]["code"]["maxLength"], 100);
    assert_eq!(item["properties"]["price"]["minimum"], 1);
    assert_eq!(item["properties"]["price"]["maximum"], 10000);
    assert_eq!(
        schemas["Order"]["properties"]["items"]["items"]["$ref"],
        "#/components/schemas/ValidatedItem"
    );
}

#[test]
fn assembling_twice_gives_the_same_document() {
    assert_eq!(document(), document());
}

#[test]
fn declared_type_named_like_the_error_schema_must_have_its_shape() {
    let other = SchemaDescriptor {
        name: "ApiError".to_string(),
        ty: TypeDescriptor::Object("ApiError".to_string(), vec![with("code", whole_kind())]),
        constraints: ConstraintSet { checks: vec![] },
    };
    let collision = assemble(&vec![], &vec![other], NameMap::new(), test_info()).unwrap_err();
    assert_eq!(collision.name, "ApiError");

    let same = SchemaDescriptor {
        name: "ApiError".to_string(),
        ty: TypeDescriptor::Object(
            "ApiError".to_string(),
            vec![
                with("error", text_kind()),
                FieldDescriptor {
                    name: "details".to_string(),
                    ty: TypeDescriptor::Sequence(Box::new(text_kind())),
                    required: false,
                },
            ],
        ),
        constraints: ConstraintSet { checks: vec![] },
    };
    let doc = assemble(&vec![], &vec![same], NameMap::new(), test_info()).unwrap().to_json();
    assert_eq!(doc["components"]["schemas"].as_object().unwrap().len(), 1);
    assert_eq!(doc["components"]["schemas"]["ApiError"]["required"][0], "error");
}

#[test]
fn path_parameters_have_their_declared_type() {
    let route = plain_route(
        Method::Get,
        "/files/{name}/{version}/{latest}/{other}",
        "get_file",
        vec![("name", "String"), ("version", "u32"), ("latest", "bool"), ("db", "Dep")],
        None,
    );
    let doc = assemble(&vec![route], &vec![], NameMap::new(), test_info()).unwrap().to_json();
    let params = doc["paths"]["/files/{name}/{version}/{latest}/{other}"]["get"]["parameters"]
        .as_array()
        .unwrap();
    assert_eq!(params.len(), 4);
    assert_eq!(params[0]["name"], "name");
    assert_eq!(params[0]["schema"]["type"], "string");
    assert_eq!(params[1]["schema"]["type"], "integer");
    assert_eq!(params[2]["schema"]["type"], "boolean");
    // A placeholder that the handler does not declare is a string.
    assert_eq!(params[3]["name"], "other");
    assert_eq!(params[3]["schema"]["type"], "string");
    for p in params {
        assert_eq!(p["in"], "path");
        assert_eq!(p["required"], true);
    }
}
