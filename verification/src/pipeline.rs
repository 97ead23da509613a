//! The dispatch pipeline: the decisions that lead one call from its arrival to
//! its response.
//!
//! The pipeline is a state machine. What only the surroundings can do (check a
//! token, read and decode the body, run the handler, encode its result) is
//! asked for as an action, and its outcome comes back as an event. The stages
//! follow each other in one order, and the first failure ends the call:
//! path extraction, dependency resolution, authentication, body extraction,
//! validation, invocation, response encoding.

use crate::codec::{decode_text, encode_text, encoded, read_from, DecodeError};
use crate::datum::{Datum, DatumModel};
use crate::descriptor::TypeDescriptor;
use crate::json::{json_of, parsed, rendered};
use crate::registry::SchemaDescriptor;
use crate::error::{ApiError, ApiErrorModel, ErrorKind};
use crate::route::{contains_text, Input, InputRole, Method, PathKind, RouteDescriptor};
use crate::text::{chars_of, has_at, i64_of, occurs_at, parse_i64, same_text, text_of, texts_of};
use crate::validation::{validate, violations, CheckModel, ConstraintSet};
use vstd::prelude::*;

verus! {

/// What the transport layer found in the place of one placeholder.
#[derive(Debug)]
pub struct Binding {
    pub name: String,
    pub text: String,
}

/// What the pipeline needs of a call before its body is read.
#[derive(Debug)]
pub struct Request {
    /// The placeholders of the matched path with what stands in their place.
    pub bindings: Vec<Binding>,
    /// The value of the header `Authorization`.
    pub authorization: Option<String>,
    /// The value of the header `X-API-Key`.
    pub api_key: Option<String>,
}

/// One argument of the handler.
#[derive(Debug)]
pub enum Argument {
    /// A value read from the path.
    Value(Datum),
    /// The shared instance of the type of the given name.
    Dependency(String),
    /// The credentials that the validator gave.
    Credentials,
    /// The decoded body.
    Body,
}

/// What an `Argument` holds.
pub enum ArgumentModel {
    Value(DatumModel),
    Dependency(Seq<char>),
    Credentials,
    Body,
}

impl View for Argument {
    type V = ArgumentModel;

    open spec fn view(&self) -> ArgumentModel {
        match self {
            Argument::Value(d) => ArgumentModel::Value(d@),
            Argument::Dependency(name) => ArgumentModel::Dependency(name@),
            Argument::Credentials => ArgumentModel::Credentials,
            Argument::Body => ArgumentModel::Body,
        }
    }
}

/// The model of each argument, in order.
pub open spec fn arguments_of(arguments: Seq<Argument>) -> Seq<ArgumentModel> {
    arguments.map_values(|a: Argument| a@)
}

/// Where a call stands.
#[derive(Clone, Copy, PartialEq, Eq, Structural, Debug)]
pub enum Stage {
    /// The call has arrived; nothing has been extracted yet.
    PathExtraction,
    /// The token has been handed to the validator.
    Authentication,
    /// The body is being read and decoded.
    BodyExtraction,
    /// The handler is running.
    Invocation,
    /// The handler's result is being encoded.
    ResponseEncoding,
    /// The response has been given.
    Done,
}

impl Stage {
    /// The place of the stage in the order of the pipeline.
    pub open spec fn rank(self) -> int {
        match self {
            Stage::PathExtraction => 0,
            Stage::Authentication => 1,
            Stage::BodyExtraction => 2,
            Stage::Invocation => 3,
            Stage::ResponseEncoding => 4,
            Stage::Done => 5,
        }
    }
}

/// The state of one call: its stage, and the arguments gathered for the
/// handler.
#[derive(Debug)]
pub struct Dispatch {
    pub stage: Stage,
    pub arguments: Vec<Argument>,
}

/// What a `Dispatch` holds.
pub struct DispatchModel {
    pub stage: Stage,
    pub arguments: Seq<ArgumentModel>,
}

impl View for Dispatch {
    type V = DispatchModel;

    open spec fn view(&self) -> DispatchModel {
        DispatchModel { stage: self.stage, arguments: arguments_of(self.arguments@) }
    }
}

/// What happened outside the pipeline.
#[derive(Debug)]
pub enum Event {
    /// The call arrived.
    Received(Request),
    /// The validator accepted the token.
    Authenticated,
    /// The validator rejected the token, with its reason.
    Rejected(String),
    /// The body was read and decoded.
    BodyDecoded(Datum),
    /// The body could not be decoded, for the given reason.
    BodyMalformed(String),
    /// The handler returned.
    Returned,
    /// The handler failed.
    Failed(ApiError),
    /// The handler's result was encoded, to the given text.
    Encoded(String),
    /// The handler's result could not be encoded, for the given reason.
    NotEncoded(String),
}

/// The response to a call.
#[derive(Debug)]
pub enum Reply {
    Success { status: u16, body: String },
    Failure(ApiError),
}

/// What a `Reply` holds.
pub enum ReplyModel {
    Success { status: u16, body: Seq<char> },
    Failure(ApiErrorModel),
}

impl View for Reply {
    type V = ReplyModel;

    open spec fn view(&self) -> ReplyModel {
        match self {
            Reply::Success { status, body } => ReplyModel::Success { status: *status, body: body@ },
            Reply::Failure(e) => ReplyModel::Failure(e@),
        }
    }
}

impl Reply {
    /// The status code of the response.
    pub fn status(&self) -> (code: u16)
        ensures
            code == match self@ {
                ReplyModel::Success { status, .. } => status,
                ReplyModel::Failure(e) => e.kind.code(),
            },
    {
        match self {
            Reply::Success { status, .. } => *status,
            Reply::Failure(e) => e.status(),
        }
    }
}

/// What the surroundings are to do next.
#[derive(Debug)]
pub enum Action {
    /// Hand the token to the validator.
    Authenticate(String),
    /// Read the body and decode it.
    DecodeBody,
    /// Call the handler with the arguments, in this order; the body is the
    /// value for the argument `Body`.
    Invoke { arguments: Vec<Argument>, body: Option<Datum> },
    /// Encode what the handler returned.
    Encode,
    /// Give the response.
    Respond(Reply),
}

/// What an `Action` holds.
pub enum ActionModel {
    Authenticate(Seq<char>),
    DecodeBody,
    Invoke { arguments: Seq<ArgumentModel>, body: Option<DatumModel> },
    Encode,
    Respond(ReplyModel),
}

impl View for Action {
    type V = ActionModel;

    open spec fn view(&self) -> ActionModel {
        match self {
            Action::Authenticate(token) => ActionModel::Authenticate(token@),
            Action::DecodeBody => ActionModel::DecodeBody,
            Action::Invoke { arguments, body } => ActionModel::Invoke {
                arguments: arguments_of(arguments@),
                body: match body {
                    Some(d) => Some(d@),
                    None => None,
                },
            },
            Action::Encode => ActionModel::Encode,
            Action::Respond(reply) => ActionModel::Respond(reply@),
        }
    }
}

/// The text bound to the placeholder `name`: that of the first binding of
/// the name.
pub open spec fn bound_text(bindings: Seq<Binding>, name: Seq<char>) -> Option<Seq<char>>
    decreases bindings.len(),
{
    if bindings.len() == 0 {
        None
    } else if bindings[0].name@ == name {
        Some(bindings[0].text@)
    } else {
        bound_text(bindings.drop_first(), name)
    }
}

/// The value that a text of the path stands for, read as the given kind.
/// An integer is a decimal numeral that fits 64 bits; a boolean is `true` or
/// `false`; a text is itself.
pub open spec fn path_value(kind: PathKind, text: Seq<char>) -> Option<DatumModel> {
    match kind {
        PathKind::Integer => match i64_of(text) {
            Some(i) => Some(DatumModel::Integer(i as int)),
            None => None,
        },
        PathKind::Text => Some(DatumModel::Text(text)),
        PathKind::Boolean => if text == "true"@ {
            Some(DatumModel::Bool(true))
        } else if text == "false"@ {
            Some(DatumModel::Bool(false))
        } else {
            None
        },
    }
}

/// The argument for one parameter of the handler, or `None` where the
/// parameter is filled from the path and the path does not give a value of
/// its kind.
pub open spec fn argument_for(input: Input, bindings: Seq<Binding>) -> Option<ArgumentModel> {
    match input.role {
        InputRole::Path(kind) => match bound_text(bindings, input.name@) {
            Some(text) => match path_value(kind, text) {
                Some(v) => Some(ArgumentModel::Value(v)),
                None => None,
            },
            None => None,
        },
        InputRole::Dependency => Some(ArgumentModel::Dependency(input.type_label@)),
        InputRole::Credentials => Some(ArgumentModel::Credentials),
        InputRole::Body => Some(ArgumentModel::Body),
    }
}

/// `at` is the position of the first parameter that the path fails.
pub open spec fn first_path_failure(inputs: Seq<Input>, bindings: Seq<Binding>, at: int) -> bool {
    &&& 0 <= at < inputs.len()
    &&& argument_for(inputs[at], bindings) is None
    &&& forall|j: int| 0 <= j < at ==> argument_for(#[trigger] inputs[j], bindings) is Some
}

/// The path gives every parameter that is filled from it.
pub open spec fn path_fits(inputs: Seq<Input>, bindings: Seq<Binding>) -> bool {
    forall|j: int| 0 <= j < inputs.len() ==> argument_for(#[trigger] inputs[j], bindings) is Some
}

/// The arguments of the handler, in the order of its parameters.
pub open spec fn arguments_for(inputs: Seq<Input>, bindings: Seq<Binding>) -> Seq<ArgumentModel> {
    inputs.map_values(|input: Input| argument_for(input, bindings)->0)
}

/// Whether a parameter is a dependency that is not available.
pub open spec fn lacks_dependency(input: Input, available: Seq<Seq<char>>) -> bool {
    input.role == InputRole::Dependency && !available.contains(input.type_label@)
}

/// `at` is the position of the first parameter whose dependency is not
/// available.
pub open spec fn first_missing_dependency(inputs: Seq<Input>, available: Seq<Seq<char>>, at: int) -> bool {
    &&& 0 <= at < inputs.len()
    &&& lacks_dependency(inputs[at], available)
    &&& forall|j: int| 0 <= j < at ==> !lacks_dependency(#[trigger] inputs[j], available)
}

/// Every dependency of the handler is available.
pub open spec fn dependencies_met(inputs: Seq<Input>, available: Seq<Seq<char>>) -> bool {
    forall|j: int| 0 <= j < inputs.len() ==> !lacks_dependency(#[trigger] inputs[j], available)
}

/// Whether a parameter of the handler has the given role.
pub open spec fn has_role(inputs: Seq<Input>, role: InputRole) -> bool {
    exists|j: int| 0 <= j < inputs.len() && (#[trigger] inputs[j]).role == role
}

/// The token that a call presents: what follows `Bearer ` in the header
/// `Authorization`, or else the value of the header `X-API-Key`. Where there
/// is neither, the message says whether the authorization header is of
/// another form or missing.
pub open spec fn token_of(authorization: Option<Seq<char>>, api_key: Option<Seq<char>>) -> Result<
    Seq<char>,
    Seq<char>,
> {
    if authorization is Some && occurs_at(authorization->0, 0, "Bearer "@) {
        Ok(authorization->0.skip("Bearer "@.len() as int))
    } else if api_key is Some {
        Ok(api_key->0)
    } else if authorization is Some {
        Err("Invalid authorization header"@)
    } else {
        Err("Missing authorization header"@)
    }
}

/// The end of a call in an error.
pub open spec fn failed(error: ApiErrorModel) -> (DispatchModel, ActionModel) {
    (
        DispatchModel { stage: Stage::Done, arguments: Seq::empty() },
        ActionModel::Respond(ReplyModel::Failure(error)),
    )
}

/// What follows once the caller is known, or need not be known: the body is
/// read where the handler takes one, else the handler is called.
pub open spec fn proceed(inputs: Seq<Input>, arguments: Seq<ArgumentModel>) -> (
    DispatchModel,
    ActionModel,
) {
    if has_role(inputs, InputRole::Body) {
        (DispatchModel { stage: Stage::BodyExtraction, arguments }, ActionModel::DecodeBody)
    } else {
        (
            DispatchModel { stage: Stage::Invocation, arguments: Seq::empty() },
            ActionModel::Invoke { arguments, body: None },
        )
    }
}

/// Whether a call must present a credential: it must where the route
/// requires a security scheme, and where the handler takes credentials.
pub open spec fn guarded(inputs: Seq<Input>, security: Seq<String>) -> bool {
    security.len() > 0 || has_role(inputs, InputRole::Credentials)
}

/// What the arrival of a call leads to. The path is extracted first: the
/// first parameter that it fails ends the call as a bad request. Then the
/// dependencies are resolved: the first that is not available ends the call
/// as an internal error. Then, where the call must present a credential, the
/// token is extracted: a call without one is unauthorized, another has its
/// token checked.
pub open spec fn on_arrival(
    inputs: Seq<Input>,
    security: Seq<String>,
    available: Seq<Seq<char>>,
    request: Request,
) -> (DispatchModel, ActionModel) {
    let bindings = request.bindings@;
    if exists|at: int| first_path_failure(inputs, bindings, at) {
        let at = choose|at: int| first_path_failure(inputs, bindings, at);
        failed(
            ApiErrorModel::plain(
                ErrorKind::BadRequest,
                "Invalid path param: "@ + inputs[at].name@,
            ),
        )
    } else if exists|at: int| first_missing_dependency(inputs, available, at) {
        let at = choose|at: int| first_missing_dependency(inputs, available, at);
        failed(
            ApiErrorModel::plain(
                ErrorKind::InternalError,
                "Missing dependency: "@ + inputs[at].type_label@,
            ),
        )
    } else if guarded(inputs, security) {
        match token_of(text_of(request.authorization), text_of(request.api_key)) {
            Ok(token) => (
                DispatchModel {
                    stage: Stage::Authentication,
                    arguments: arguments_for(inputs, bindings),
                },
                ActionModel::Authenticate(token),
            ),
            Err(message) => failed(ApiErrorModel::plain(ErrorKind::Unauthorized, message)),
        }
    } else {
        proceed(inputs, arguments_for(inputs, bindings))
    }
}

/// What an event leads to: the state that follows, and what the surroundings
/// are to do. An event that the stage does not wait for ends the call as an
/// internal error.
pub open spec fn transition(
    method: Method,
    inputs: Seq<Input>,
    security: Seq<String>,
    checks: Seq<CheckModel>,
    available: Seq<Seq<char>>,
    state: DispatchModel,
    event: Event,
) -> (DispatchModel, ActionModel) {
    match (state.stage, event) {
        (Stage::PathExtraction, Event::Received(request)) => on_arrival(
            inputs,
            security,
            available,
            request,
        ),
        (Stage::Authentication, Event::Authenticated) => proceed(inputs, state.arguments),
        (Stage::Authentication, Event::Rejected(reason)) => failed(
            ApiErrorModel::plain(ErrorKind::Unauthorized, reason@),
        ),
        (Stage::BodyExtraction, Event::BodyDecoded(body)) => {
            let found = violations(checks, body@);
            if found.len() > 0 {
                failed(ApiErrorModel::validation(found))
            } else {
                (
                    DispatchModel { stage: Stage::Invocation, arguments: Seq::empty() },
                    ActionModel::Invoke { arguments: state.arguments, body: Some(body@) },
                )
            }
        },
        (Stage::BodyExtraction, Event::BodyMalformed(reason)) => failed(
            ApiErrorModel::plain(ErrorKind::BadRequest, "Invalid body: "@ + reason@),
        ),
        (Stage::Invocation, Event::Returned) => (
            DispatchModel { stage: Stage::ResponseEncoding, arguments: Seq::empty() },
            ActionModel::Encode,
        ),
        (Stage::Invocation, Event::Failed(error)) => failed(error@),
        (Stage::ResponseEncoding, Event::Encoded(body)) => (
            DispatchModel { stage: Stage::Done, arguments: Seq::empty() },
            ActionModel::Respond(ReplyModel::Success { status: method.success(), body: body@ }),
        ),
        (Stage::ResponseEncoding, Event::NotEncoded(reason)) => failed(
            ApiErrorModel::plain(
                ErrorKind::InternalError,
                "Response serialization failed: "@ + reason@,
            ),
        ),
        _ => failed(ApiErrorModel::plain(ErrorKind::InternalError, "Unexpected event"@)),
    }
}

/// Every step moves a call forward in the order of the stages, and a
/// response is given exactly when the call is done.
pub proof fn lemma_stages_advance(
    method: Method,
    inputs: Seq<Input>,
    security: Seq<String>,
    checks: Seq<CheckModel>,
    available: Seq<Seq<char>>,
    state: DispatchModel,
    event: Event,
)
    requires
        state.stage != Stage::Done,
    ensures
        transition(method, inputs, security, checks, available, state, event).0.stage.rank()
            > state.stage.rank(),
        transition(method, inputs, security, checks, available, state, event).1 is Respond
            <==> transition(method, inputs, security, checks, available, state, event).0.stage
            == Stage::Done,
{
}

/// A call to a route that asks for a credential gets no further on its
/// arrival than the check of its token: it is answered, or its token is
/// handed out to be checked. Neither the body is read nor the handler called
/// before the token has been accepted. A call that presents no credential is
/// answered, and never with a success.
pub proof fn lemma_guarded_route_asks_first(
    inputs: Seq<Input>,
    security: Seq<String>,
    available: Seq<Seq<char>>,
    request: Request,
)
    requires
        guarded(inputs, security),
    ensures
        on_arrival(inputs, security, available, request).1 is Respond || on_arrival(
            inputs,
            security,
            available,
            request,
        ).1 is Authenticate,
        request.authorization is None && request.api_key is None ==> (on_arrival(
            inputs,
            security,
            available,
            request,
        ).1 matches ActionModel::Respond(reply) && reply is Failure),
{
}

fn find_binding<'a>(bindings: &'a Vec<Binding>, name: &str) -> (found: Option<&'a String>)
    ensures
        text_of(
            match found {
                Some(t) => Some(*t),
                None => None,
            },
        ) == bound_text(bindings@, name@),
{
    let key = String::from_str(name);
    let mut i: usize = 0;
    assert(bindings@.skip(0) =~= bindings@);
    while i < bindings.len()
        invariant
            i <= bindings.len(),
            key@ == name@,
            bound_text(bindings@, name@) == bound_text(bindings@.skip(i as int), name@),
        decreases bindings.len() - i,
    {
        if bindings[i].name == key {
            return Some(&bindings[i].text);
        }
        assert(bindings@.skip(i as int).drop_first() =~= bindings@.skip(i + 1));
        i += 1;
    }
    None
}

/// The value that a text of the path stands for, read as the given kind.
pub fn read_path_value(kind: PathKind, text: &str) -> (value: Option<Datum>)
    ensures
        match value {
            Some(d) => path_value(kind, text@) == Some(d@),
            None => path_value(kind, text@) is None,
        },
{
    match kind {
        PathKind::Integer => match parse_i64(text) {
            Some(i) => Some(Datum::Integer(i)),
            None => None,
        },
        PathKind::Text => Some(Datum::Text(String::from_str(text))),
        PathKind::Boolean => {
            if same_text(text, "true") {
                Some(Datum::Bool(true))
            } else if same_text(text, "false") {
                Some(Datum::Bool(false))
            } else {
                None
            }
        },
    }
}

fn make_argument(input: &Input, bindings: &Vec<Binding>) -> (argument: Option<Argument>)
    ensures
        match argument {
            Some(a) => argument_for(*input, bindings@) == Some(a@),
            None => argument_for(*input, bindings@) is None,
        },
{
    match input.role {
        InputRole::Path(kind) => match find_binding(bindings, input.name.as_str()) {
            Some(text) => match read_path_value(kind, text.as_str()) {
                Some(d) => Some(Argument::Value(d)),
                None => None,
            },
            None => None,
        },
        InputRole::Dependency => Some(Argument::Dependency(input.type_label.clone())),
        InputRole::Credentials => Some(Argument::Credentials),
        InputRole::Body => Some(Argument::Body),
    }
}

/// The arguments of the handler, or the position of the first parameter that
/// the path fails.
fn gather_arguments(inputs: &Vec<Input>, bindings: &Vec<Binding>) -> (result: Result<
    Vec<Argument>,
    usize,
>)
    ensures
        match result {
            Ok(arguments) => path_fits(inputs@, bindings@) && arguments_of(arguments@)
                == arguments_for(inputs@, bindings@),
            Err(at) => first_path_failure(inputs@, bindings@, at as int),
        },
{
    let mut arguments: Vec<Argument> = Vec::new();
    let mut i: usize = 0;
    while i < inputs.len()
        invariant
            i <= inputs.len(),
            arguments.len() == i,
            forall|j: int| 0 <= j < i ==> argument_for(#[trigger] inputs@[j], bindings@) == Some(
                arguments@[j]@,
            ),
        decreases inputs.len() - i,
    {
        match make_argument(&inputs[i], bindings) {
            Some(a) => {
                arguments.push(a);
            },
            None => {
                return Err(i);
            },
        }
        i += 1;
    }
    Ok(arguments)
}

/// The position of the first parameter whose dependency is not available.
fn find_missing_dependency(inputs: &Vec<Input>, available: &Vec<String>) -> (found: Option<usize>)
    ensures
        match found {
            Some(at) => first_missing_dependency(inputs@, texts_of(available@), at as int),
            None => dependencies_met(inputs@, texts_of(available@)),
        },
{
    let mut i: usize = 0;
    while i < inputs.len()
        invariant
            i <= inputs.len(),
            forall|j: int|
                0 <= j < i ==> !lacks_dependency(#[trigger] inputs@[j], texts_of(available@)),
        decreases inputs.len() - i,
    {
        if let InputRole::Dependency = inputs[i].role {
            if !contains_text(available, inputs[i].type_label.as_str()) {
                return Some(i);
            }
        }
        i += 1;
    }
    None
}

fn takes(inputs: &Vec<Input>, role: InputRole) -> (found: bool)
    ensures
        found == has_role(inputs@, role),
{
    let mut i: usize = 0;
    while i < inputs.len()
        invariant
            i <= inputs.len(),
            forall|j: int| 0 <= j < i ==> (#[trigger] inputs@[j]).role != role,
        decreases inputs.len() - i,
    {
        if inputs[i].role == role {
            return true;
        }
        i += 1;
    }
    false
}

/// The token that a call presents, or the message for a call that presents
/// none.
pub fn extract_token(authorization: &Option<String>, api_key: &Option<String>) -> (result: Result<
    String,
    String,
>)
    ensures
        match result {
            Ok(token) => token_of(text_of(*authorization), text_of(*api_key)) matches Ok(t) && t
                == token@,
            Err(message) => token_of(text_of(*authorization), text_of(*api_key)) matches Err(m)
                && m == message@,
        },
{
    proof {
        reveal_strlit("Bearer ");
    }
    if let Some(a) = authorization {
        let chars = chars_of(a.as_str());
        let prefix = chars_of("Bearer ");
        if has_at(&chars, 0, &prefix) {
            let n = chars.len();
            return Ok(String::from_str(a.as_str().substring_char(7, n)));
        }
    }
    if let Some(k) = api_key {
        return Ok(k.clone());
    }
    if authorization.is_some() {
        Err(String::from_str("Invalid authorization header"))
    } else {
        Err(String::from_str("Missing authorization header"))
    }
}

fn fail(error: ApiError) -> (result: (Dispatch, Action))
    ensures
        (result.0@, result.1@) == failed(error@),
{
    let state = Dispatch { stage: Stage::Done, arguments: Vec::new() };
    assert(state@.arguments =~= Seq::empty());
    (state, Action::Respond(Reply::Failure(error)))
}

fn go_on(inputs: &Vec<Input>, arguments: Vec<Argument>) -> (result: (Dispatch, Action))
    ensures
        (result.0@, result.1@) == proceed(inputs@, arguments_of(arguments@)),
{
    if takes(inputs, InputRole::Body) {
        (Dispatch { stage: Stage::BodyExtraction, arguments }, Action::DecodeBody)
    } else {
        let state = Dispatch { stage: Stage::Invocation, arguments: Vec::new() };
        assert(state@.arguments =~= Seq::empty());
        (state, Action::Invoke { arguments, body: None })
    }
}

fn labelled(label: &str, text: &str) -> (message: String)
    ensures
        message@ == label@ + text@,
{
    let mut message = String::from_str(label);
    message.append(text);
    message
}

fn arrive(
    inputs: &Vec<Input>,
    security: &Vec<String>,
    available: &Vec<String>,
    request: Request,
) -> (result: (Dispatch, Action))
    ensures
        (result.0@, result.1@) == on_arrival(inputs@, security@, texts_of(available@), request),
{
    let arguments = match gather_arguments(inputs, &request.bindings) {
        Err(at) => {
            return fail(
                ApiError::bad_request(labelled("Invalid path param: ", inputs[at].name.as_str())),
            );
        },
        Ok(arguments) => arguments,
    };
    match find_missing_dependency(inputs, available) {
        Some(at) => {
            return fail(
                ApiError::internal(
                    labelled("Missing dependency: ", inputs[at].type_label.as_str()),
                ),
            );
        },
        None => {},
    }
    if security.len() > 0 || takes(inputs, InputRole::Credentials) {
        match extract_token(&request.authorization, &request.api_key) {
            Ok(token) => (
                Dispatch { stage: Stage::Authentication, arguments },
                Action::Authenticate(token),
            ),
            Err(message) => fail(ApiError::unauthorized(message.as_str())),
        }
    } else {
        go_on(inputs, arguments)
    }
}

/// Takes one step of the pipeline: from the state of a call and what
/// happened, to the state that follows and what is to be done next.
pub fn step(
    route: &RouteDescriptor,
    constraints: &ConstraintSet,
    available: &Vec<String>,
    state: Dispatch,
    event: Event,
) -> (result: (Dispatch, Action))
    ensures
        (result.0@, result.1@) == transition(
            route.method,
            route.inputs@,
            route.security@,
            constraints@,
            texts_of(available@),
            state@,
            event,
        ),
{
    match state.stage {
        Stage::PathExtraction => match event {
            Event::Received(request) => arrive(&route.inputs, &route.security, available, request),
            _ => fail(ApiError::internal(String::from_str("Unexpected event"))),
        },
        Stage::Authentication => match event {
            Event::Authenticated => go_on(&route.inputs, state.arguments),
            Event::Rejected(reason) => fail(ApiError::unauthorized(reason.as_str())),
            _ => fail(ApiError::internal(String::from_str("Unexpected event"))),
        },
        Stage::BodyExtraction => match event {
            Event::BodyDecoded(body) => match validate(&body, constraints) {
                Err(messages) => fail(ApiError::validation_error(messages)),
                Ok(_) => {
                    let next = Dispatch { stage: Stage::Invocation, arguments: Vec::new() };
                    assert(next@.arguments =~= Seq::empty());
                    (next, Action::Invoke { arguments: state.arguments, body: Some(body) })
                },
            },
            Event::BodyMalformed(reason) => fail(
                ApiError::bad_request(labelled("Invalid body: ", reason.as_str())),
            ),
            _ => fail(ApiError::internal(String::from_str("Unexpected event"))),
        },
        Stage::Invocation => match event {
            Event::Returned => {
                let next = Dispatch { stage: Stage::ResponseEncoding, arguments: Vec::new() };
                assert(next@.arguments =~= Seq::empty());
                (next, Action::Encode)
            },
            Event::Failed(error) => fail(error),
            _ => fail(ApiError::internal(String::from_str("Unexpected event"))),
        },
        Stage::ResponseEncoding => match event {
            Event::Encoded(body) => {
                let next = Dispatch { stage: Stage::Done, arguments: Vec::new() };
                assert(next@.arguments =~= Seq::empty());
                (
                    next,
                    Action::Respond(
                        Reply::Success { status: route.method.success_status(), body },
                    ),
                )
            },
            Event::NotEncoded(reason) => fail(
                ApiError::internal(labelled("Response serialization failed: ", reason.as_str())),
            ),
            _ => fail(ApiError::internal(String::from_str("Unexpected event"))),
        },
        Stage::Done => fail(ApiError::internal(String::from_str("Unexpected event"))),
    }
}

impl Dispatch {
    /// The state of a call that has just arrived.
    pub fn new() -> (state: Dispatch)
        ensures
            state@ == (DispatchModel { stage: Stage::PathExtraction, arguments: Seq::empty() }),
    {
        let state = Dispatch { stage: Stage::PathExtraction, arguments: Vec::new() };
        assert(state@.arguments =~= Seq::empty());
        state
    }
}

/// What reading a body leads to: the decoded value, or the reason why there
/// is none.
pub open spec fn body_outcome(outcome: Result<DatumModel, DecodeError>, event: Event) -> bool {
    match outcome {
        Ok(value) => event matches Event::BodyDecoded(body) && body@ == value,
        Err(DecodeError::Syntax) => event matches Event::BodyMalformed(reason) && reason@
            == "not valid JSON"@,
        Err(DecodeError::Shape) => event matches Event::BodyMalformed(reason) && reason@
            == "not a value of the declared type"@,
    }
}

/// Reads the text of a body as a value of the type `ty`, and gives the event
/// that tells the pipeline of it.
pub fn body_event(text: &str, ty: &TypeDescriptor, types: &Vec<SchemaDescriptor>, depth: usize) -> (event:
    Event)
    ensures
        body_outcome(read_from(parsed(text@), *ty, types@, depth as nat), event),
{
    match decode_text(text, ty, types, depth) {
        Ok(value) => Event::BodyDecoded(value),
        Err(DecodeError::Syntax) => Event::BodyMalformed(String::from_str("not valid JSON")),
        Err(DecodeError::Shape) => Event::BodyMalformed(
            String::from_str("not a value of the declared type"),
        ),
    }
}

/// Writes what the handler returned as JSON text, and gives the event that
/// tells the pipeline of it.
pub fn result_event(value: &Datum) -> (event: Event)
    ensures
        exists|json: serde_json::Value|
            json_of(json) == encoded(value@) && match #[trigger] rendered(json) {
                Some(text) => event matches Event::Encoded(body) && body@ == text,
                None => event matches Event::NotEncoded(reason) && reason@
                    == "value cannot be written as JSON"@,
            },
{
    match encode_text(value) {
        Some(text) => Event::Encoded(text),
        None => Event::NotEncoded(String::from_str("value cannot be written as JSON")),
    }
}

} // verus!
