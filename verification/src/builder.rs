//! The application as it is put together at startup: the title and version
//! of the API, the shared instances that are registered, the security
//! schemes, and the registry of routes and declared types. Once it is put
//! together it serves the document of the API and takes calls through the
//! pipeline.

use crate::assembler::{
    assemble, checks_for, collides_among, consistent_among, find_checks, is_document_of,
};
use crate::names::{distinct_names, has_name, put, NameMap};
use crate::openapi::{Info, OpenApiSpec, SecurityScheme, SecuritySchemeModel};
use crate::pipeline::{step, transition, Action, Dispatch, Event};
use crate::registry::{has_handler, has_schema, Registry, RegistryError, SchemaDescriptor};
use crate::route::{contains_text, RouteDescriptor};
use crate::synthesis::NameCollision;
use crate::text::texts_of;
use crate::validation::{CheckModel, ConstraintSet};
use vstd::prelude::*;

verus! {

/// The application.
#[derive(Debug)]
pub struct HayaiApp {
    pub info: Info,
    /// The names of the types of the shared instances that are registered.
    pub dependencies: Vec<String>,
    pub security_schemes: NameMap<SecurityScheme>,
    pub registry: Registry,
}

/// The security scheme that asks for a bearer token.
pub open spec fn bearer_scheme() -> SecuritySchemeModel {
    SecuritySchemeModel { kind: "http"@, scheme: "bearer"@ }
}

fn copy_schemes(schemes: &NameMap<SecurityScheme>) -> (copy: NameMap<SecurityScheme>)
    ensures
        copy@ == schemes@,
{
    let mut copy: NameMap<SecurityScheme> = NameMap::new();
    let n = schemes.len();
    let mut i: usize = 0;
    assert(copy@ =~= schemes@.take(0));
    while i < n
        invariant
            i <= n,
            n == schemes.entries().len(),
            distinct_names(schemes.entries()),
            copy@ == schemes@.take(i as int),
        decreases n - i,
    {
        let name = schemes.name_at(i);
        let scheme = schemes.value_at(i);
        proof {
            let listed = schemes@.take(i as int);
            assert(!has_name(listed, name@)) by {
                if has_name(listed, name@) {
                    let j = choose|j: int| 0 <= j < listed.len() && #[trigger] listed[j].0 == name@;
                    assert(schemes.entries()[j].0 == schemes.entries()[i as int].0);
                }
            }
            assert(put(listed, name@, scheme@) =~= schemes@.take(i + 1));
        }
        copy.store(
            name.clone(),
            SecurityScheme { kind: scheme.kind.clone(), scheme: scheme.scheme.clone() },
        );
        i += 1;
    }
    assert(schemes@.take(n as int) =~= schemes@);
    copy
}

impl HayaiApp {
    /// Whether `after` is `self` but for its title and version.
    pub open spec fn same_parts(self, after: HayaiApp) -> bool {
        &&& after.dependencies@ == self.dependencies@
        &&& after.security_schemes@ == self.security_schemes@
        &&& after.registry.routes() == self.registry.routes()
        &&& after.registry.schemas() == self.registry.schemas()
    }

    /// The application without a title, a version, or anything registered.
    pub fn new() -> (app: HayaiApp)
        ensures
            app.info.title@.len() == 0,
            app.info.version@.len() == 0,
            app.dependencies@.len() == 0,
            app.security_schemes@.len() == 0,
            app.registry.routes().len() == 0,
            app.registry.schemas().len() == 0,
    {
        HayaiApp {
            info: Info { title: String::new(), version: String::new() },
            dependencies: Vec::new(),
            security_schemes: NameMap::new(),
            registry: Registry::new(),
        }
    }

    /// Sets the title of the API.
    pub fn title(self, title: &str) -> (app: HayaiApp)
        ensures
            app.info.title@ == title@,
            app.info.version@ == self.info.version@,
            self.same_parts(app),
    {
        HayaiApp {
            info: Info { title: String::from_str(title), version: self.info.version },
            dependencies: self.dependencies,
            security_schemes: self.security_schemes,
            registry: self.registry,
        }
    }

    /// Sets the version of the API.
    pub fn version(self, version: &str) -> (app: HayaiApp)
        ensures
            app.info.title@ == self.info.title@,
            app.info.version@ == version@,
            self.same_parts(app),
    {
        HayaiApp {
            info: Info { title: self.info.title, version: String::from_str(version) },
            dependencies: self.dependencies,
            security_schemes: self.security_schemes,
            registry: self.registry,
        }
    }

    /// Registers the shared instance of the type named `type_label`. A type
    /// that is registered already is not registered again.
    pub fn dep(self, type_label: &str) -> (app: HayaiApp)
        ensures
            app.info == self.info,
            app.security_schemes@ == self.security_schemes@,
            app.registry.routes() == self.registry.routes(),
            app.registry.schemas() == self.registry.schemas(),
            texts_of(app.dependencies@) == if texts_of(self.dependencies@).contains(type_label@) {
                texts_of(self.dependencies@)
            } else {
                texts_of(self.dependencies@).push(type_label@)
            },
    {
        let mut dependencies = self.dependencies;
        if !contains_text(&dependencies, type_label) {
            let ghost before = texts_of(dependencies@);
            dependencies.push(String::from_str(type_label));
            assert(texts_of(dependencies@) =~= before.push(type_label@));
        }
        HayaiApp {
            info: self.info,
            dependencies,
            security_schemes: self.security_schemes,
            registry: self.registry,
        }
    }

    /// Declares the security scheme `bearerAuth`, which asks for a bearer
    /// token.
    pub fn bearer_auth(self) -> (app: HayaiApp)
        ensures
            app.info == self.info,
            app.dependencies@ == self.dependencies@,
            app.registry.routes() == self.registry.routes(),
            app.registry.schemas() == self.registry.schemas(),
            app.security_schemes@ == put(self.security_schemes@, "bearerAuth"@, bearer_scheme()),
    {
        let mut security_schemes = self.security_schemes;
        security_schemes.store(
            String::from_str("bearerAuth"),
            SecurityScheme { kind: String::from_str("http"), scheme: String::from_str("bearer") },
        );
        HayaiApp {
            info: self.info,
            dependencies: self.dependencies,
            security_schemes,
            registry: self.registry,
        }
    }

    /// Registers a route, unless a route with a handler of the same name is
    /// registered already.
    pub fn route(self, route: RouteDescriptor) -> (result: Result<HayaiApp, RegistryError>)
        ensures
            match result {
                Ok(app) => !has_handler(self.registry.routes(), route.info.handler_name@)
                    && app.registry.routes() == self.registry.routes().push(route)
                    && app.registry.schemas() == self.registry.schemas() && app.info == self.info
                    && app.dependencies@ == self.dependencies@ && app.security_schemes@
                    == self.security_schemes@,
                Err(RegistryError::DuplicateHandler(name)) => name@ == route.info.handler_name@
                    && has_handler(self.registry.routes(), name@),
                Err(_) => false,
            },
    {
        let mut registry = self.registry;
        match registry.register_route(route) {
            Ok(_) => Ok(
                HayaiApp {
                    info: self.info,
                    dependencies: self.dependencies,
                    security_schemes: self.security_schemes,
                    registry,
                },
            ),
            Err(error) => Err(error),
        }
    }

    /// Registers a declared type, unless a type of the same name is
    /// registered already.
    pub fn schema(self, schema: SchemaDescriptor) -> (result: Result<HayaiApp, RegistryError>)
        ensures
            match result {
                Ok(app) => !has_schema(self.registry.schemas(), schema.name@)
                    && app.registry.schemas() == self.registry.schemas().push(schema)
                    && app.registry.routes() == self.registry.routes() && app.info == self.info
                    && app.dependencies@ == self.dependencies@ && app.security_schemes@
                    == self.security_schemes@,
                Err(RegistryError::DuplicateSchema(name)) => name@ == schema.name@ && has_schema(
                    self.registry.schemas(),
                    name@,
                ),
                Err(_) => false,
            },
    {
        let mut registry = self.registry;
        match registry.register_schema(schema) {
            Ok(_) => Ok(
                HayaiApp {
                    info: self.info,
                    dependencies: self.dependencies,
                    security_schemes: self.security_schemes,
                    registry,
                },
            ),
            Err(error) => Err(error),
        }
    }

    /// The document of the API: what `assemble` gives for the registered
    /// routes and types, the declared security schemes, and the title and
    /// version of the application.
    pub fn openapi(&self) -> (result: Result<OpenApiSpec, NameCollision>)
        ensures
            result is Ok <==> consistent_among(self.registry.schemas()),
            match result {
                Ok(document) => is_document_of(
                    document@,
                    self.registry.routes(),
                    self.registry.schemas(),
                    self.security_schemes@,
                    self.info.title@,
                    self.info.version@,
                ),
                Err(collision) => collides_among(self.registry.schemas(), collision.name@),
            },
    {
        assemble(
            self.registry.all_routes(),
            self.registry.all_schemas(),
            copy_schemes(&self.security_schemes),
            Info { title: self.info.title.clone(), version: self.info.version.clone() },
        )
    }

    /// Takes one step of the pipeline for a call of the route whose handler
    /// is named `handler_name`. The body is checked against the constraints
    /// declared for the type of the route's body. `None` where no such route
    /// is registered.
    pub fn dispatch(&self, handler_name: &str, state: Dispatch, event: Event) -> (result: Option<
        (Dispatch, Action),
    >)
        ensures
            match result {
                Some(next) => exists|route: RouteDescriptor|
                    #![trigger self.registry.routes().contains(route)]
                    self.registry.routes().contains(route) && route.info.handler_name@
                        == handler_name@ && (next.0@, next.1@) == transition(
                        route.method,
                        route.inputs@,
                        route.security@,
                        checks_for(self.registry.schemas(), route.info.body_type_name@),
                        texts_of(self.dependencies@),
                        state@,
                        event,
                    ),
                None => !has_handler(self.registry.routes(), handler_name@),
            },
    {
        match self.registry.find_route(handler_name) {
            None => None,
            Some(route) => {
                let nothing = ConstraintSet { checks: Vec::new() };
                assert(nothing@ =~= Seq::<CheckModel>::empty());
                let next = match find_checks(
                    self.registry.all_schemas(),
                    route.info.body_type_name.as_str(),
                ) {
                    Some(constraints) => step(route, constraints, &self.dependencies, state, event),
                    None => step(route, &nothing, &self.dependencies, state, event),
                };
                Some(next)
            },
        }
    }
}

} // verus!
