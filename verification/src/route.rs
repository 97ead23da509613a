//! Route descriptors: what is known of one operation once its handler has
//! been declared, and how that follows from the declaration.

use crate::descriptor::{kind_name, kind_text, primitive_kind, primitive_kind_of, TypeDescriptor};
use crate::openapi::{Parameter, ParameterModel, SchemaObject};
use crate::text::{chars_of, pieces, same_text, split_on, texts_of};
use vstd::prelude::*;

verus! {

/// The HTTP method of a route.
#[derive(Clone, Copy, PartialEq, Eq, Structural, Debug)]
pub enum Method {
    Get,
    Post,
    Put,
    Delete,
}

impl Method {
    /// The method's name in upper case.
    pub open spec fn upper(self) -> Seq<char> {
        match self {
            Method::Get => "GET"@,
            Method::Post => "POST"@,
            Method::Put => "PUT"@,
            Method::Delete => "DELETE"@,
        }
    }

    /// The method's name in lower case, as the served document keys it.
    pub open spec fn lower(self) -> Seq<char> {
        match self {
            Method::Get => "get"@,
            Method::Post => "post"@,
            Method::Put => "put"@,
            Method::Delete => "delete"@,
        }
    }

    /// The status of a successful call: 201 for POST, 204 for DELETE, 200
    /// otherwise.
    pub open spec fn success(self) -> u16 {
        match self {
            Method::Get => 200,
            Method::Post => 201,
            Method::Put => 200,
            Method::Delete => 204,
        }
    }

    /// The method of the given name in lower case; `None` for another name.
    pub fn from_name(name: &str) -> (method: Option<Method>)
        ensures
            match method {
                Some(m) => name@ == m.lower(),
                None => forall|m: Method| name@ != m.lower(),
            },
    {
        if same_text(name, "get") {
            Some(Method::Get)
        } else if same_text(name, "post") {
            Some(Method::Post)
        } else if same_text(name, "put") {
            Some(Method::Put)
        } else if same_text(name, "delete") {
            Some(Method::Delete)
        } else {
            None
        }
    }

    /// The method's name in upper case.
    pub fn as_upper(self) -> (name: &'static str)
        ensures
            name@ == self.upper(),
    {
        match self {
            Method::Get => "GET",
            Method::Post => "POST",
            Method::Put => "PUT",
            Method::Delete => "DELETE",
        }
    }

    /// The method's name in lower case.
    pub fn as_lower(self) -> (name: &'static str)
        ensures
            name@ == self.lower(),
    {
        match self {
            Method::Get => "get",
            Method::Post => "post",
            Method::Put => "put",
            Method::Delete => "delete",
        }
    }

    /// The status of a successful call.
    pub fn success_status(self) -> (status: u16)
        ensures
            status == self.success(),
    {
        match self {
            Method::Get => 200,
            Method::Post => 201,
            Method::Put => 200,
            Method::Delete => 204,
        }
    }
}

/// Whether a piece of a path is a placeholder: it begins with `{` and ends
/// with `}`.
pub open spec fn is_placeholder(piece: Seq<char>) -> bool {
    piece.len() >= 2 && piece[0] == '{' && piece[piece.len() - 1] == '}'
}

/// The name between the braces of a placeholder.
pub open spec fn placeholder_name(piece: Seq<char>) -> Seq<char> {
    piece.subrange(1, piece.len() - 1)
}

/// The names of the placeholders among the pieces, in order.
pub open spec fn placeholder_names(parts: Seq<Seq<char>>) -> Seq<Seq<char>>
    decreases parts.len(),
{
    if parts.len() == 0 {
        Seq::empty()
    } else if is_placeholder(parts.last()) {
        placeholder_names(parts.drop_last()).push(placeholder_name(parts.last()))
    } else {
        placeholder_names(parts.drop_last())
    }
}

/// The names of the parameters that a declared path takes: the names of the
/// placeholders among its pieces between slashes, in order.
pub open spec fn path_parameter_names(path: Seq<char>) -> Seq<Seq<char>> {
    placeholder_names(pieces(path, '/'))
}

/// The names of the parameters that a declared path takes.
pub fn path_params(path: &str) -> (names: Vec<String>)
    ensures
        texts_of(names@) == path_parameter_names(path@),
{
    let parts = split_on(path, '/');
    let mut names: Vec<String> = Vec::new();
    let mut i: usize = 0;
    while i < parts.len()
        invariant
            i <= parts.len(),
            texts_of(names@) == placeholder_names(texts_of(parts@).take(i as int)),
        decreases parts.len() - i,
    {
        assert(texts_of(parts@).take(i + 1).drop_last() =~= texts_of(parts@).take(i as int));
        let chars = chars_of(parts[i].as_str());
        let n = chars.len();
        if n >= 2 && chars[0] == '{' && chars[n - 1] == '}' {
            names.push(String::from_str(parts[i].as_str().substring_char(1, n - 1)));
        }
        i += 1;
    }
    assert(texts_of(parts@).take(i as int) =~= texts_of(parts@));
    names
}

/// Whether `name` is the name of a primitive type of the handler language.
pub open spec fn primitive_type_name(name: Seq<char>) -> bool {
    ||| name == "i8"@
    ||| name == "i16"@
    ||| name == "i32"@
    ||| name == "i64"@
    ||| name == "i128"@
    ||| name == "u8"@
    ||| name == "u16"@
    ||| name == "u32"@
    ||| name == "u64"@
    ||| name == "u128"@
    ||| name == "f32"@
    ||| name == "f64"@
    ||| name == "String"@
    ||| name == "bool"@
}

/// Whether `name` is the name of a primitive type of the handler language.
pub fn is_primitive_type(name: &str) -> (primitive: bool)
    ensures
        primitive == primitive_type_name(name@),
{
    same_text(name, "i8") || same_text(name, "i16") || same_text(name, "i32") || same_text(
        name,
        "i64",
    ) || same_text(name, "i128") || same_text(name, "u8") || same_text(name, "u16") || same_text(
        name,
        "u32",
    ) || same_text(name, "u64") || same_text(name, "u128") || same_text(name, "f32") || same_text(
        name,
        "f64",
    ) || same_text(name, "String") || same_text(name, "bool")
}

/// Whether `name` is the name of the type that marks a dependency.
pub fn is_dep_type(name: &str) -> (dependency: bool)
    ensures
        dependency == (name@ == "Dep"@),
{
    same_text(name, "Dep")
}

/// Whether `name` is the name of the type that marks the credentials of the
/// caller.
pub fn is_auth_type(name: &str) -> (credentials: bool)
    ensures
        credentials == (name@ == "Auth"@),
{
    same_text(name, "Auth")
}

/// What a handler parameter is filled from.
#[derive(Clone, Copy, PartialEq, Eq, Structural, Debug)]
pub enum ParamRole {
    /// A shared instance, looked up by its type.
    Dependency,
    /// The credentials that the validator gave for the caller's token.
    Credentials,
    /// A placeholder of the path.
    Path,
    /// The request body.
    Body,
    /// Nothing that the pipeline extracts.
    Plain,
}

/// The role of a handler parameter, from its name, the name of its type and
/// the placeholders of the path: a dependency or the credentials where the
/// type says so, else a path parameter where a placeholder has its name, else
/// the body unless the type is primitive.
pub open spec fn role_of(name: Seq<char>, type_label: Seq<char>, placeholders: Seq<Seq<char>>) -> ParamRole {
    if type_label == "Dep"@ {
        ParamRole::Dependency
    } else if type_label == "Auth"@ {
        ParamRole::Credentials
    } else if placeholders.contains(name) {
        ParamRole::Path
    } else if !primitive_type_name(type_label) {
        ParamRole::Body
    } else {
        ParamRole::Plain
    }
}

/// Whether `name` is among `names`.
pub fn contains_text(names: &Vec<String>, name: &str) -> (found: bool)
    ensures
        found == texts_of(names@).contains(name@),
{
    let key = String::from_str(name);
    let mut i: usize = 0;
    while i < names.len()
        invariant
            i <= names.len(),
            key@ == name@,
            forall|k: int| 0 <= k < i ==> texts_of(names@)[k] != name@,
        decreases names.len() - i,
    {
        if names[i] == key {
            assert(texts_of(names@)[i as int] == name@);
            return true;
        }
        i += 1;
    }
    false
}

/// The role of a handler parameter.
pub fn classify_parameter(name: &str, type_label: &str, placeholders: &Vec<String>) -> (role: ParamRole)
    ensures
        role == role_of(name@, type_label@, texts_of(placeholders@)),
{
    if is_dep_type(type_label) {
        ParamRole::Dependency
    } else if is_auth_type(type_label) {
        ParamRole::Credentials
    } else if contains_text(placeholders, name) {
        ParamRole::Path
    } else if !is_primitive_type(type_label) {
        ParamRole::Body
    } else {
        ParamRole::Plain
    }
}

/// The name of a type: the one given, or `Unknown` where the type is not a
/// path and so has none.
pub fn get_type_name(ident: Option<&str>) -> (name: String)
    ensures
        name@ == match ident {
            Some(i) => i@,
            None => "Unknown"@,
        },
{
    match ident {
        Some(i) => String::from_str(i),
        None => String::from_str("Unknown"),
    }
}

/// A parameter of a handler as it is declared: its name and the name of its
/// type.
#[derive(Debug)]
pub struct ParamDecl {
    pub name: String,
    pub type_label: String,
}

/// What is known of one operation.
#[derive(Debug)]
pub struct RouteInfo {
    /// The declared path, with its placeholders.
    pub path: String,
    /// The path as the transport layer wants it.
    pub axum_path: String,
    /// The method in upper case.
    pub method: String,
    pub handler_name: String,
    /// The name of the type that the handler returns; `()` where it returns
    /// nothing.
    pub response_type_name: String,
    /// One parameter for each placeholder of the path.
    pub parameters: Vec<Parameter>,
    pub has_body: bool,
    /// The name of the type of the body; empty where there is no body.
    pub body_type_name: String,
}

/// The name of the type of the first declared parameter named `name`.
pub open spec fn declared_label(params: Seq<ParamDecl>, name: Seq<char>) -> Option<Seq<char>>
    decreases params.len(),
{
    if params.len() == 0 {
        None
    } else if params[0].name@ == name {
        Some(params[0].type_label@)
    } else {
        declared_label(params.drop_first(), name)
    }
}

/// The JSON type of the path parameter named `name`: that of the primitive
/// type that the handler declares for it. A path parameter that the handler
/// does not declare, or declares with a type that is not primitive, is a
/// string, as every piece of a path is.
pub open spec fn path_parameter_kind(params: Seq<ParamDecl>, name: Seq<char>) -> Seq<char> {
    match declared_label(params, name) {
        Some(label) => match primitive_kind(label) {
            Some(kind) => kind_text(kind),
            None => "string"@,
        },
        None => "string"@,
    }
}

/// The path parameter of the given name, as the served document lists it:
/// required, and of the type that the handler declares for it.
pub open spec fn path_parameter(params: Seq<ParamDecl>, name: Seq<char>) -> ParameterModel {
    ParameterModel {
        name,
        location: "path"@,
        required: true,
        kind: path_parameter_kind(params, name),
    }
}

fn find_label<'a>(params: &'a Vec<ParamDecl>, name: &str) -> (found: Option<&'a String>)
    ensures
        match found {
            Some(label) => declared_label(params@, name@) == Some(label@),
            None => declared_label(params@, name@) is None,
        },
{
    let key = String::from_str(name);
    let mut i: usize = 0;
    assert(params@.skip(0) =~= params@);
    while i < params.len()
        invariant
            i <= params.len(),
            key@ == name@,
            declared_label(params@, name@) == declared_label(params@.skip(i as int), name@),
        decreases params.len() - i,
    {
        assert(params@.skip(i as int)[0] == params@[i as int]);
        if params[i].name == key {
            return Some(&params[i].type_label);
        }
        assert(params@.skip(i as int).drop_first() =~= params@.skip(i + 1));
        i += 1;
    }
    None
}

/// The JSON type of the path parameter named `name`.
pub fn path_kind(params: &Vec<ParamDecl>, name: &str) -> (kind: &'static str)
    ensures
        kind@ == path_parameter_kind(params@, name@),
{
    match find_label(params, name) {
        Some(label) => match primitive_kind_of(label.as_str()) {
            Some(kind) => kind_name(kind),
            None => "string",
        },
        None => "string",
    }
}

/// Whether one of the parameters is filled from the body.
pub open spec fn takes_body(params: Seq<ParamDecl>, placeholders: Seq<Seq<char>>) -> bool {
    exists|k: int|
        0 <= k < params.len() && role_of(
            (#[trigger] params[k]).name@,
            params[k].type_label@,
            placeholders,
        ) == ParamRole::Body
}

/// The name of the type of the last parameter that is filled from the body;
/// empty where there is none.
pub open spec fn body_type_of(params: Seq<ParamDecl>, placeholders: Seq<Seq<char>>) -> Seq<char>
    decreases params.len(),
{
    if params.len() == 0 {
        Seq::empty()
    } else if role_of(params.last().name@, params.last().type_label@, placeholders)
        == ParamRole::Body {
        params.last().type_label@
    } else {
        body_type_of(params.drop_last(), placeholders)
    }
}

/// What `describe_route` gives.
pub open spec fn described(
    info: RouteInfo,
    method: Method,
    path: Seq<char>,
    handler_name: Seq<char>,
    params: Seq<ParamDecl>,
    response: Option<Seq<char>>,
) -> bool {
    let placeholders = path_parameter_names(path);
    &&& info.path@ == path
    &&& info.axum_path@ == path
    &&& info.method@ == method.upper()
    &&& info.handler_name@ == handler_name
    &&& info.response_type_name@ == match response {
        Some(r) => r,
        None => "()"@,
    }
    &&& crate::openapi::parameters_of(info.parameters@) == placeholders.map_values(
        |name: Seq<char>| path_parameter(params, name),
    )
    &&& info.has_body == takes_body(params, placeholders)
    &&& info.body_type_name@ == body_type_of(params, placeholders)
}

/// What is known of an operation from the declaration of its handler: the
/// method and the path as given; one parameter for each placeholder of the
/// path, of the type that the handler declares for it; and whether a parameter of the handler is filled from the
/// body, with the name of its type.
pub fn describe_route(
    method: Method,
    path: &str,
    handler_name: &str,
    params: &Vec<ParamDecl>,
    response: Option<&str>,
) -> (info: RouteInfo)
    ensures
        described(
            info,
            method,
            path@,
            handler_name@,
            params@,
            match response {
                Some(r) => Some(r@),
                None => None,
            },
        ),
{
    let placeholders = path_params(path);
    let ghost names = path_parameter_names(path@);
    let mut has_body = false;
    let mut body_type_name = String::new();
    let mut i: usize = 0;
    while i < params.len()
        invariant
            i <= params.len(),
            texts_of(placeholders@) == names,
            has_body == takes_body(params@.take(i as int), names),
            body_type_name@ == body_type_of(params@.take(i as int), names),
        decreases params.len() - i,
    {
        let ghost seen = params@.take(i as int);
        let ghost next = params@.take(i + 1);
        assert(next.drop_last() =~= seen);
        let role = classify_parameter(
            params[i].name.as_str(),
            params[i].type_label.as_str(),
            &placeholders,
        );
        if let ParamRole::Body = role {
            has_body = true;
            body_type_name = params[i].type_label.clone();
        }
        i += 1;
    }
    assert(params@.take(i as int) =~= params@);
    let mut parameters: Vec<Parameter> = Vec::new();
    let mut k: usize = 0;
    while k < placeholders.len()
        invariant
            k <= placeholders.len(),
            parameters.len() == k,
            forall|j: int| 0 <= j < k ==> (#[trigger] parameters@[j])@ == path_parameter(
                params@,
                placeholders@[j]@,
            ),
        decreases placeholders.len() - k,
    {
        parameters.push(
            Parameter {
                name: placeholders[k].clone(),
                location: String::from_str("path"),
                required: true,
                schema: SchemaObject::new_type(path_kind(params, placeholders[k].as_str())),
            },
        );
        k += 1;
    }
    assert(crate::openapi::parameters_of(parameters@) =~= names.map_values(
        |name: Seq<char>| path_parameter(params@, name),
    ));
    RouteInfo {
        path: String::from_str(path),
        axum_path: String::from_str(path),
        method: String::from_str(method.as_upper()),
        handler_name: String::from_str(handler_name),
        response_type_name: match response {
            Some(r) => String::from_str(r),
            None => String::from_str("()"),
        },
        parameters,
        has_body,
        body_type_name,
    }
}

/// The kind of value that a placeholder of a path stands for.
#[derive(Clone, Copy, PartialEq, Eq, Structural, Debug)]
pub enum PathKind {
    Integer,
    Text,
    Boolean,
}

/// What a handler parameter is filled from, as its declaration says.
#[derive(Clone, Copy, PartialEq, Eq, Structural, Debug)]
pub enum InputRole {
    /// The placeholder of the parameter's name, read as the given kind.
    Path(PathKind),
    /// The shared instance of the parameter's type.
    Dependency,
    /// The credentials of the caller.
    Credentials,
    /// The request body.
    Body,
}

/// A handler parameter with its role.
#[derive(Debug)]
pub struct Input {
    pub name: String,
    pub type_label: String,
    pub role: InputRole,
}

/// A parameter that a route takes from the query.
#[derive(Debug)]
pub struct QueryParam {
    pub name: String,
    /// The JSON type of the parameter.
    pub kind: String,
    pub required: bool,
}

/// One operation: what its declaration gives, the roles of the handler's
/// parameters in the order of their declaration, and what the served document
/// says of it.
#[derive(Debug)]
pub struct RouteDescriptor {
    pub method: Method,
    pub info: RouteInfo,
    pub inputs: Vec<Input>,
    pub query: Vec<QueryParam>,
    /// The type that the handler returns, where it returns anything.
    pub response: Option<TypeDescriptor>,
    pub tags: Vec<String>,
    /// The names of the security schemes that the route requires.
    pub security: Vec<String>,
    pub summary: Option<String>,
    pub description: Option<String>,
}

} // verus!
