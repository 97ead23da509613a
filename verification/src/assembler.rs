//! The document assembler: from the registered routes and schemas to the
//! served document.

use crate::descriptor::{component_ref, fragment};
use crate::names::{distinct_names, has_entry, has_name, put, NameMap};
use crate::openapi::{
    component_path, lemma_same_schemas, parameters_of, Info, OpenApiModel, OpenApiSpec, Operation,
    OperationModel, Parameter, ParameterModel, Property, PropertyModel, RequestBody,
    RequestBodyModel, ResponseDef, ResponseModel, Schema, SchemaModel, SchemaObject, SecurityScheme,
};
use crate::patch::{patch_schema, patched_schema};
use crate::registry::SchemaDescriptor;
use crate::route::{Method, QueryParam, RouteDescriptor};
use crate::synthesis::{declares, known_or_declared, register, NameCollision};
use crate::text::{copy_texts, same_text, text_of, texts_of};
use crate::validation::{CheckModel, ConstraintSet};
use vstd::prelude::*;

verus! {

/// The key of the response to a successful call.
pub open spec fn success_key(method: Method) -> Seq<char> {
    match method {
        Method::Get => "200"@,
        Method::Post => "201"@,
        Method::Put => "200"@,
        Method::Delete => "204"@,
    }
}

/// The description of the response to a successful call.
pub open spec fn success_description(method: Method) -> Seq<char> {
    match method {
        Method::Get => "OK"@,
        Method::Post => "Created"@,
        Method::Put => "OK"@,
        Method::Delete => "No Content"@,
    }
}

/// The response that reports an error: the description, with the schema of
/// errors.
pub open spec fn error_response(description: Seq<char>) -> ResponseModel {
    ResponseModel {
        description,
        schema: Some(PropertyModel::reference(component_path("ApiError"@))),
    }
}

/// The schema node of what a route returns.
pub open spec fn response_schema(route: RouteDescriptor) -> Option<PropertyModel> {
    match route.response {
        Some(ty) => Some(fragment(ty)),
        None => None,
    }
}

/// The responses of a route: that of success, with the schema of what the
/// handler returns; 400 and 500 always; 401 where the route requires a
/// security scheme; 422 where it takes a body.
pub open spec fn responses_of(route: RouteDescriptor) -> Seq<(Seq<char>, ResponseModel)> {
    let success = ResponseModel {
        description: success_description(route.method),
        schema: response_schema(route),
    };
    let r = put(Seq::empty(), success_key(route.method), success);
    let r = put(r, "400"@, error_response("Bad Request"@));
    let r = if route.security@.len() > 0 {
        put(r, "401"@, error_response("Unauthorized"@))
    } else {
        r
    };
    let r = if route.info.has_body {
        put(r, "422"@, error_response("Validation Error"@))
    } else {
        r
    };
    put(r, "500"@, error_response("Internal Server Error"@))
}

/// A query parameter as the served document lists it.
pub open spec fn query_parameter(q: QueryParam) -> ParameterModel {
    ParameterModel { name: q.name@, location: "query"@, required: q.required, kind: q.kind@ }
}

/// The parameters of a route: those of its path, then those of its query.
pub open spec fn parameters_for(route: RouteDescriptor) -> Seq<ParameterModel> {
    parameters_of(route.info.parameters@) + route.query@.map_values(
        |q: QueryParam| query_parameter(q),
    )
}

/// The name under which the served document lists a security scheme: the
/// scheme `bearer` is listed as `bearerAuth`, any other under its own name.
pub open spec fn scheme_key(name: Seq<char>) -> Seq<char> {
    if name == "bearer"@ {
        "bearerAuth"@
    } else {
        name
    }
}

/// The operation that the served document lists for a route.
pub open spec fn operation_of(route: RouteDescriptor) -> OperationModel {
    OperationModel {
        summary: text_of(route.summary),
        description: text_of(route.description),
        operation_id: Some(route.info.handler_name@),
        tags: texts_of(route.tags@),
        parameters: parameters_for(route),
        request_body: if route.info.has_body {
            Some(
                RequestBodyModel {
                    required: true,
                    content_type: "application/json"@,
                    schema_ref: component_path(route.info.body_type_name@),
                },
            )
        } else {
            None
        },
        responses: responses_of(route),
        security: texts_of(route.security@).map_values(|name: Seq<char>| scheme_key(name)),
    }
}

fn error_reply(description: &str) -> (response: ResponseDef)
    ensures
        response@ == error_response(description@),
{
    ResponseDef {
        description: String::from_str(description),
        schema: Some(Property::reference(component_ref("ApiError"))),
    }
}

fn responses_for(route: &RouteDescriptor) -> (responses: NameMap<ResponseDef>)
    ensures
        responses@ == responses_of(*route),
{
    let success = ResponseDef {
        description: String::from_str(
            match route.method {
                Method::Get => "OK",
                Method::Post => "Created",
                Method::Put => "OK",
                Method::Delete => "No Content",
            },
        ),
        schema: match &route.response {
            Some(ty) => Some(ty.to_fragment()),
            None => None,
        },
    };
    let mut responses: NameMap<ResponseDef> = NameMap::new();
    assert(responses.models() =~= Seq::empty());
    responses.store(
        String::from_str(
            match route.method {
                Method::Get => "200",
                Method::Post => "201",
                Method::Put => "200",
                Method::Delete => "204",
            },
        ),
        success,
    );
    responses.store(String::from_str("400"), error_reply("Bad Request"));
    if route.security.len() > 0 {
        responses.store(String::from_str("401"), error_reply("Unauthorized"));
    }
    if route.info.has_body {
        responses.store(String::from_str("422"), error_reply("Validation Error"));
    }
    responses.store(String::from_str("500"), error_reply("Internal Server Error"));
    responses
}

fn copy_parameter(p: &Parameter) -> (copy: Parameter)
    ensures
        copy@ == p@,
{
    Parameter {
        name: p.name.clone(),
        location: p.location.clone(),
        required: p.required,
        schema: SchemaObject::new_type(p.schema.kind.as_str()),
    }
}

fn parameters_list(route: &RouteDescriptor) -> (parameters: Vec<Parameter>)
    ensures
        parameters_of(parameters@) == parameters_for(*route),
{
    let mut parameters: Vec<Parameter> = Vec::new();
    let mut i: usize = 0;
    while i < route.info.parameters.len()
        invariant
            i <= route.info.parameters.len(),
            parameters.len() == i,
            forall|k: int| 0 <= k < i ==> (#[trigger] parameters@[k])@ == route.info.parameters@[k]@,
        decreases route.info.parameters.len() - i,
    {
        parameters.push(copy_parameter(&route.info.parameters[i]));
        i += 1;
    }
    let n = route.info.parameters.len();
    let mut j: usize = 0;
    while j < route.query.len()
        invariant
            j <= route.query.len(),
            n == route.info.parameters.len(),
            parameters.len() == n + j,
            forall|k: int| 0 <= k < n ==> (#[trigger] parameters@[k])@ == route.info.parameters@[k]@,
            forall|k: int|
                0 <= k < j ==> (#[trigger] parameters@[n + k])@ == query_parameter(route.query@[k]),
        decreases route.query.len() - j,
    {
        let q = &route.query[j];
        parameters.push(
            Parameter {
                name: q.name.clone(),
                location: String::from_str("query"),
                required: q.required,
                schema: SchemaObject::new_type(q.kind.as_str()),
            },
        );
        j += 1;
    }
    proof {
        let wanted = parameters_for(*route);
        assert forall|k: int| 0 <= k < parameters@.len() implies parameters_of(parameters@)[k]
            == wanted[k] by {
            if k >= n {
                assert(parameters@[n + (k - n)]@ == query_parameter(route.query@[k - n]));
            }
        }
    }
    parameters
}

fn security_list(route: &RouteDescriptor) -> (names: Vec<String>)
    ensures
        texts_of(names@) == texts_of(route.security@).map_values(|name: Seq<char>| scheme_key(name)),
{
    let mut names: Vec<String> = Vec::new();
    let mut i: usize = 0;
    while i < route.security.len()
        invariant
            i <= route.security.len(),
            names.len() == i,
            forall|k: int| 0 <= k < i ==> (#[trigger] names@[k])@ == scheme_key(route.security@[k]@),
        decreases route.security.len() - i,
    {
        if same_text(route.security[i].as_str(), "bearer") {
            names.push(String::from_str("bearerAuth"));
        } else {
            names.push(route.security[i].clone());
        }
        i += 1;
    }
    names
}

fn copy_text(text: &Option<String>) -> (copy: Option<String>)
    ensures
        text_of(copy) == text_of(*text),
{
    match text {
        Some(s) => Some(s.clone()),
        None => None,
    }
}

/// The operation that the served document lists for a route.
pub fn operation_for(route: &RouteDescriptor) -> (operation: Operation)
    ensures
        operation@ == operation_of(*route),
{
    Operation {
        summary: copy_text(&route.summary),
        description: copy_text(&route.description),
        operation_id: Some(route.info.handler_name.clone()),
        tags: copy_texts(&route.tags),
        parameters: parameters_list(route),
        request_body: if route.info.has_body {
            Some(
                RequestBody {
                    required: true,
                    content_type: String::from_str("application/json"),
                    schema_ref: component_ref(route.info.body_type_name.as_str()),
                },
            )
        } else {
            None
        },
        responses: responses_for(route),
        security: security_list(route),
    }
}

/// The paths of the routes, each once, in the order in which they first
/// occur.
pub open spec fn listed_paths(routes: Seq<RouteDescriptor>) -> Seq<Seq<char>>
    decreases routes.len(),
{
    if routes.len() == 0 {
        Seq::empty()
    } else {
        let earlier = listed_paths(routes.drop_last());
        if earlier.contains(routes.last().info.path@) {
            earlier
        } else {
            earlier.push(routes.last().info.path@)
        }
    }
}

/// The operations of the routes on the path `path`, each stored under its
/// method in lower case, in the order of the routes.
pub open spec fn operations_at(routes: Seq<RouteDescriptor>, path: Seq<char>) -> Seq<
    (Seq<char>, OperationModel),
>
    decreases routes.len(),
{
    if routes.len() == 0 {
        Seq::empty()
    } else if routes.last().info.path@ == path {
        put(
            operations_at(routes.drop_last(), path),
            routes.last().method.lower(),
            operation_of(routes.last()),
        )
    } else {
        operations_at(routes.drop_last(), path)
    }
}

/// The paths of the served document: each path of a route with the
/// operations on it.
pub open spec fn paths_of(routes: Seq<RouteDescriptor>) -> Seq<
    (Seq<char>, Seq<(Seq<char>, OperationModel)>),
> {
    listed_paths(routes).map_values(|p: Seq<char>| (p, operations_at(routes, p)))
}

fn operations_on(routes: &Vec<RouteDescriptor>, path: &str) -> (methods: NameMap<Operation>)
    ensures
        methods@ == operations_at(routes@, path@),
{
    let mut methods: NameMap<Operation> = NameMap::new();
    let mut i: usize = 0;
    while i < routes.len()
        invariant
            i <= routes.len(),
            methods@ == operations_at(routes@.take(i as int), path@),
        decreases routes.len() - i,
    {
        assert(routes@.take(i + 1).drop_last() =~= routes@.take(i as int));
        if same_text(routes[i].info.path.as_str(), path) {
            methods.store(String::from_str(routes[i].method.as_lower()), operation_for(&routes[i]));
        }
        i += 1;
    }
    assert(routes@.take(i as int) =~= routes@);
    methods
}

fn paths_for(routes: &Vec<RouteDescriptor>) -> (paths: NameMap<NameMap<Operation>>)
    ensures
        paths@ == paths_of(routes@),
{
    let mut paths: NameMap<NameMap<Operation>> = NameMap::new();
    let mut i: usize = 0;
    while i < routes.len()
        invariant
            i <= routes.len(),
            paths@ == listed_paths(routes@.take(i as int)).map_values(
                |p: Seq<char>| (p, operations_at(routes@, p)),
            ),
        decreases routes.len() - i,
    {
        let ghost listed = listed_paths(routes@.take(i as int));
        let ghost before = paths@;
        let path = &routes[i].info.path;
        proof {
            assert(routes@.take(i + 1).drop_last() =~= routes@.take(i as int));
            if listed.contains(path@) {
                let k = choose|k: int| 0 <= k < listed.len() && listed[k] == path@;
                assert(before[k].0 == path@);
            }
        }
        if !paths.knows(path.as_str()) {
            let methods = operations_on(routes, path.as_str());
            paths.store(path.clone(), methods);
        }
        i += 1;
    }
    assert(routes@.take(i as int) =~= routes@);
    paths
}

/// The schema of the errors that a call can end in.
pub open spec fn api_error_schema() -> SchemaModel {
    SchemaModel {
        kind: "object"@,
        properties: put(
            put(Seq::empty(), "error"@, PropertyModel::plain("string"@)),
            "details"@,
            PropertyModel {
                items: Some(Box::new(PropertyModel::plain("string"@))),
                ..PropertyModel::plain("array"@)
            },
        ),
        required: seq!["error"@],
    }
}

fn error_schema() -> (schema: Schema)
    ensures
        schema@ == api_error_schema(),
{
    let mut properties: NameMap<Property> = NameMap::new();
    assert(properties.models() =~= Seq::empty());
    properties.store(String::from_str("error"), Property::plain("string"));
    let mut details = Property::plain("array");
    details.items = Some(Box::new(Property::plain("string")));
    properties.store(String::from_str("details"), details);
    let mut required: Vec<String> = Vec::new();
    required.push(String::from_str("error"));
    assert(texts_of(required@) =~= seq!["error"@]);
    Schema { kind: String::from_str("object"), properties, required }
}

/// Whether `schema` is the schema of errors under its name, `ApiError`. Every
/// API declares it: its responses refer to it.
pub open spec fn is_error_schema(name: Seq<char>, schema: SchemaModel) -> bool {
    name == "ApiError"@ && schema == api_error_schema()
}

/// Whether the API declares an object named `name` whose schema is `schema`:
/// one of the declared types holds it, or it is the schema of errors.
pub open spec fn declared_among(schemas: Seq<SchemaDescriptor>, name: Seq<char>, schema: SchemaModel) -> bool {
    is_error_schema(name, schema) || exists|i: int|
        0 <= i < schemas.len() && declares((#[trigger] schemas[i]).ty, name, schema)
}

/// Whether one of the first `count` declared types holds an object named
/// `name` whose schema is `schema`.
pub open spec fn declared_among_first(
    schemas: Seq<SchemaDescriptor>,
    count: int,
    name: Seq<char>,
    schema: SchemaModel,
) -> bool {
    is_error_schema(name, schema) || exists|i: int|
        0 <= i < count && i < schemas.len() && declares((#[trigger] schemas[i]).ty, name, schema)
}

/// Across the declared types no name stands for two different schemas.
pub open spec fn consistent_among(schemas: Seq<SchemaDescriptor>) -> bool {
    forall|name: Seq<char>, a: SchemaModel, b: SchemaModel|
        #[trigger] declared_among(schemas, name, a) && #[trigger] declared_among(schemas, name, b)
            ==> a == b
}

/// Across the declared types the name `name` stands for two different
/// schemas.
pub open spec fn collides_among(schemas: Seq<SchemaDescriptor>, name: Seq<char>) -> bool {
    exists|a: SchemaModel, b: SchemaModel|
        a != b && #[trigger] declared_among(schemas, name, a) && #[trigger] declared_among(
            schemas,
            name,
            b,
        )
}

/// The checks declared for the type named `name`: those of the first
/// declared type of that name, or none.
pub open spec fn checks_for(schemas: Seq<SchemaDescriptor>, name: Seq<char>) -> Seq<CheckModel>
    decreases schemas.len(),
{
    if schemas.len() == 0 {
        Seq::empty()
    } else if schemas[0].name@ == name {
        schemas[0].constraints@
    } else {
        checks_for(schemas.drop_first(), name)
    }
}

/// Whether the served document lists `schema` under `name`: it does so for
/// each object that the API declares, the schema of errors among them, with
/// the constraints declared for the object's name laid over its schema.
pub open spec fn is_component(schemas: Seq<SchemaDescriptor>, name: Seq<char>, schema: SchemaModel) -> bool {
    exists|raw: SchemaModel| #[trigger]
        declared_among(schemas, name, raw) && schema == patched_schema(
            raw,
            checks_for(schemas, name),
        )
}

/// `table` lists the components of the served document, each once.
pub open spec fn lists_components(
    table: Seq<(Seq<char>, SchemaModel)>,
    schemas: Seq<SchemaDescriptor>,
) -> bool {
    &&& distinct_names(table)
    &&& forall|name: Seq<char>, schema: SchemaModel| #[trigger]
        has_entry(table, name, schema) <==> is_component(schemas, name, schema)
}

/// The schemas of all the objects that the declared types hold, each once.
fn gather(schemas: &Vec<SchemaDescriptor>) -> (result: Result<NameMap<Schema>, NameCollision>)
    ensures
        match result {
            Ok(raw) => distinct_names(raw@) && forall|n: Seq<char>, s: SchemaModel| #[trigger]
                has_entry(raw@, n, s) <==> declared_among(schemas@, n, s),
            Err(collision) => collides_among(schemas@, collision.name@),
        },
{
    let mut raw: NameMap<Schema> = NameMap::new();
    assert(raw@ =~= Seq::empty());
    raw.store(String::from_str("ApiError"), error_schema());
    proof {
        let listed = raw@;
        assert(listed =~= seq![("ApiError"@, api_error_schema())]);
        assert forall|n: Seq<char>, s: SchemaModel| #[trigger]
            has_entry(listed, n, s) <==> declared_among_first(schemas@, 0, n, s) by {
            if is_error_schema(n, s) {
                assert(listed[0] == (n, s));
            }
        }
    }
    let mut i: usize = 0;
    while i < schemas.len()
        invariant
            i <= schemas.len(),
            distinct_names(raw@),
            forall|n: Seq<char>, s: SchemaModel| #[trigger]
                has_entry(raw@, n, s) <==> declared_among_first(schemas@, i as int, n, s),
        decreases schemas.len() - i,
    {
        let ghost before = raw@;
        match register(&schemas[i].ty, &mut raw) {
            Err(name) => {
                proof {
                    let ty = schemas@[i as int].ty;
                    let (a, b) = choose|a: SchemaModel, b: SchemaModel|
                        a != b && #[trigger] known_or_declared(before, ty, name@, a)
                            && #[trigger] known_or_declared(before, ty, name@, b);
                    lemma_known_is_declared(schemas@, i as int, before, name@, a);
                    lemma_known_is_declared(schemas@, i as int, before, name@, b);
                }
                return Err(NameCollision { name });
            },
            Ok(_) => {},
        }
        i += 1;
    }
    Ok(raw)
}

/// What is listed after some of the declared types have been walked, and
/// what the next of them holds, is held by one of the declared types.
proof fn lemma_known_is_declared(
    schemas: Seq<SchemaDescriptor>,
    i: int,
    before: Seq<(Seq<char>, SchemaModel)>,
    n: Seq<char>,
    s: SchemaModel,
)
    requires
        0 <= i < schemas.len(),
        known_or_declared(before, schemas[i].ty, n, s),
        has_entry(before, n, s) <==> declared_among_first(schemas, i, n, s),
    ensures
        declared_among(schemas, n, s),
{
    if declares(schemas[i].ty, n, s) {
        assert(declared_among(schemas, n, s));
    } else if !is_error_schema(n, s) {
        let k = choose|k: int|
            0 <= k < i && k < schemas.len() && declares((#[trigger] schemas[k]).ty, n, s);
        assert(declared_among(schemas, n, s));
    }
}

pub(crate) fn find_checks<'a>(schemas: &'a Vec<SchemaDescriptor>, name: &str) -> (found: Option<
    &'a ConstraintSet,
>)
    ensures
        match found {
            Some(constraints) => constraints@ == checks_for(schemas@, name@),
            None => checks_for(schemas@, name@) == Seq::<CheckModel>::empty(),
        },
{
    let key = String::from_str(name);
    let mut i: usize = 0;
    assert(schemas@.skip(0) =~= schemas@);
    while i < schemas.len()
        invariant
            i <= schemas.len(),
            key@ == name@,
            checks_for(schemas@, name@) == checks_for(schemas@.skip(i as int), name@),
        decreases schemas.len() - i,
    {
        if schemas[i].name == key {
            return Some(&schemas[i].constraints);
        }
        assert(schemas@.skip(i as int).drop_first() =~= schemas@.skip(i + 1));
        i += 1;
    }
    None
}

/// Each schema with the constraints declared for its name laid over it.
pub open spec fn patched_all(
    raw: Seq<(Seq<char>, SchemaModel)>,
    schemas: Seq<SchemaDescriptor>,
) -> Seq<(Seq<char>, SchemaModel)> {
    raw.map_values(
        |e: (Seq<char>, SchemaModel)| (e.0, patched_schema(e.1, checks_for(schemas, e.0))),
    )
}

/// The components of the served document, from the schemas of the objects
/// that the declared types hold.
fn components(raw: &NameMap<Schema>, schemas: &Vec<SchemaDescriptor>) -> (table: NameMap<Schema>)
    requires
        distinct_names(raw@),
        forall|n: Seq<char>, s: SchemaModel| #[trigger]
            has_entry(raw@, n, s) <==> declared_among(schemas@, n, s),
    ensures
        lists_components(table@, schemas@),
{
    let mut table: NameMap<Schema> = NameMap::new();
    let count = raw.len();
    let ghost wanted = patched_all(raw@, schemas@);
    let nothing = ConstraintSet { checks: Vec::new() };
    let mut k: usize = 0;
    while k < count
        invariant
            k <= count,
            count == raw.entries().len(),
            distinct_names(raw@),
            wanted == patched_all(raw@, schemas@),
            nothing@ == Seq::<CheckModel>::empty(),
            table@ == wanted.take(k as int),
        decreases count - k,
    {
        let name = raw.name_at(k);
        let schema = raw.value_at(k);
        let patched = match find_checks(schemas, name.as_str()) {
            Some(constraints) => patch_schema(schema, constraints),
            None => patch_schema(schema, &nothing),
        };
        proof {
            let listed = wanted.take(k as int);
            assert(!has_name(listed, name@)) by {
                if has_name(listed, name@) {
                    let j = choose|j: int| 0 <= j < listed.len() && #[trigger] listed[j].0 == name@;
                    assert(raw@[j].0 == raw@[k as int].0);
                }
            }
        }
        table.store(name.clone(), patched);
        k += 1;
    }
    assert(wanted.take(count as int) =~= wanted);
    proof {
        assert forall|n: Seq<char>, s: SchemaModel| #[trigger]
            has_entry(wanted, n, s) <==> is_component(schemas@, n, s) by {
            if has_entry(wanted, n, s) {
                let j = choose|j: int| 0 <= j < wanted.len() && #[trigger] wanted[j] == (n, s);
                assert(has_entry(raw@, n, raw@[j].1));
            }
            if is_component(schemas@, n, s) {
                let unpatched = choose|unpatched: SchemaModel| #[trigger]
                    declared_among(schemas@, n, unpatched) && s == patched_schema(
                        unpatched,
                        checks_for(schemas@, n),
                    );
                assert(has_entry(raw@, n, unpatched));
                let j = choose|j: int| 0 <= j < raw@.len() && #[trigger] raw@[j] == (n, unpatched);
                assert(wanted[j] == (n, s));
            }
        }
    }
    table
}

/// What `assemble` gives: the version of the format, the title and version
/// of the API, the paths of the routes with their operations, the components,
/// and the security schemes as given.
pub open spec fn is_document_of(
    document: OpenApiModel,
    routes: Seq<RouteDescriptor>,
    schemas: Seq<SchemaDescriptor>,
    security_schemes: Seq<(Seq<char>, crate::openapi::SecuritySchemeModel)>,
    title: Seq<char>,
    version: Seq<char>,
) -> bool {
    &&& document.openapi == "3.1.0"@
    &&& document.title == title
    &&& document.version == version
    &&& document.paths == paths_of(routes)
    &&& lists_components(document.schemas, schemas)
    &&& document.security_schemes == security_schemes
}

/// The served document for the given routes, declared types and security
/// schemes.
///
/// Every route is listed under its path and method. The schema of every
/// object that a declared type holds is listed once under the object's name,
/// with the constraints declared for that name laid over it; so is the schema
/// of errors, under `ApiError`. The call fails, with one of the names in
/// question, exactly where a name stands for two different schemas: a
/// declared object named `ApiError` must have the schema of errors.
pub fn assemble(
    routes: &Vec<RouteDescriptor>,
    schemas: &Vec<SchemaDescriptor>,
    security_schemes: NameMap<SecurityScheme>,
    info: Info,
) -> (result: Result<OpenApiSpec, NameCollision>)
    ensures
        result is Ok <==> consistent_among(schemas@),
        match result {
            Ok(document) => is_document_of(
                document@,
                routes@,
                schemas@,
                security_schemes@,
                info.title@,
                info.version@,
            ),
            Err(collision) => collides_among(schemas@, collision.name@),
        },
{
    match gather(schemas) {
        Err(collision) => Err(collision),
        Ok(raw) => {
            proof {
                assert forall|name: Seq<char>, a: SchemaModel, b: SchemaModel| #[trigger]
                    declared_among(schemas@, name, a) && #[trigger] declared_among(
                        schemas@,
                        name,
                        b,
                    ) implies a == b by {
                    assert(has_entry(raw@, name, a));
                    assert(has_entry(raw@, name, b));
                    let i = choose|i: int| 0 <= i < raw@.len() && #[trigger] raw@[i] == (name, a);
                    let j = choose|j: int| 0 <= j < raw@.len() && #[trigger] raw@[j] == (name, b);
                    assert(raw@[i].0 == raw@[j].0);
                }
            }
            Ok(
                OpenApiSpec {
                    openapi: String::from_str("3.1.0"),
                    info,
                    paths: paths_for(routes),
                    schemas: components(&raw, schemas),
                    security_schemes,
                },
            )
        },
    }
}

/// Assembly is repeatable: whatever two documents are assembled from the
/// same routes, declared types, security schemes, title and version, they
/// are the same JSON.
pub proof fn lemma_document_determined(
    first: OpenApiModel,
    second: OpenApiModel,
    routes: Seq<RouteDescriptor>,
    schemas: Seq<SchemaDescriptor>,
    security_schemes: Seq<(Seq<char>, crate::openapi::SecuritySchemeModel)>,
    title: Seq<char>,
    version: Seq<char>,
)
    requires
        is_document_of(first, routes, schemas, security_schemes, title, version),
        is_document_of(second, routes, schemas, security_schemes, title, version),
    ensures
        first.json() == second.json(),
{
    assert forall|name: Seq<char>, schema: SchemaModel| #[trigger]
        has_entry(first.schemas, name, schema) <==> has_entry(second.schemas, name, schema) by {
        assert(has_entry(first.schemas, name, schema) <==> is_component(schemas, name, schema));
    }
    lemma_same_schemas(first.schemas, second.schemas);
}

} // verus!
