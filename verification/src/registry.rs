//! The descriptor registry: every declared route and every declared schema,
//! gathered once before the first call is served and only read thereafter.

use crate::descriptor::TypeDescriptor;
use crate::route::RouteDescriptor;
use crate::validation::ConstraintSet;
use vstd::prelude::*;

verus! {

/// A declared type: its name, its shape and its constraints.
#[derive(Debug)]
pub struct SchemaDescriptor {
    pub name: String,
    pub ty: TypeDescriptor,
    pub constraints: ConstraintSet,
}

/// Why a descriptor was not taken into the registry.
#[derive(Debug)]
pub enum RegistryError {
    /// A route with a handler of this name is registered already.
    DuplicateHandler(String),
    /// A schema of this name is registered already.
    DuplicateSchema(String),
}

/// Whether a route with a handler named `name` is among `routes`.
pub open spec fn has_handler(routes: Seq<RouteDescriptor>, name: Seq<char>) -> bool {
    exists|i: int| 0 <= i < routes.len() && (#[trigger] routes[i]).info.handler_name@ == name
}

/// Whether a schema named `name` is among `schemas`.
pub open spec fn has_schema(schemas: Seq<SchemaDescriptor>, name: Seq<char>) -> bool {
    exists|i: int| 0 <= i < schemas.len() && (#[trigger] schemas[i]).name@ == name
}

/// No two routes have handlers of one name.
pub open spec fn distinct_handlers(routes: Seq<RouteDescriptor>) -> bool {
    forall|i: int, j: int|
        0 <= i < routes.len() && 0 <= j < routes.len() && i != j ==> (#[trigger] routes[i]).info.handler_name@
            != (#[trigger] routes[j]).info.handler_name@
}

/// No two schemas have one name.
pub open spec fn distinct_schemas(schemas: Seq<SchemaDescriptor>) -> bool {
    forall|i: int, j: int|
        0 <= i < schemas.len() && 0 <= j < schemas.len() && i != j ==> (#[trigger] schemas[i]).name@
            != (#[trigger] schemas[j]).name@
}

/// The registry.
#[derive(Debug)]
pub struct Registry {
    routes: Vec<RouteDescriptor>,
    schemas: Vec<SchemaDescriptor>,
}

impl Registry {
    /// The registered routes, in the order of their registration.
    pub closed spec fn routes(&self) -> Seq<RouteDescriptor> {
        self.routes@
    }

    /// The registered schemas, in the order of their registration.
    pub closed spec fn schemas(&self) -> Seq<SchemaDescriptor> {
        self.schemas@
    }

    #[verifier::type_invariant]
    spec fn well_formed(&self) -> bool {
        distinct_handlers(self.routes@) && distinct_schemas(self.schemas@)
    }

    /// The registry without descriptors.
    pub fn new() -> (registry: Registry)
        ensures
            registry.routes().len() == 0,
            registry.schemas().len() == 0,
    {
        Registry { routes: Vec::new(), schemas: Vec::new() }
    }

    /// Takes a route into the registry, unless a route with a handler of the
    /// same name is there already.
    pub fn register_route(&mut self, route: RouteDescriptor) -> (result: Result<(), RegistryError>)
        ensures
            final(self).schemas() == old(self).schemas(),
            match result {
                Ok(_) => !has_handler(old(self).routes(), route.info.handler_name@)
                    && final(self).routes() == old(self).routes().push(route),
                Err(RegistryError::DuplicateHandler(name)) => name@ == route.info.handler_name@
                    && has_handler(old(self).routes(), name@) && final(self).routes() == old(
                    self,
                ).routes(),
                Err(_) => false,
            },
    {
        proof {
            use_type_invariant(&*self);
        }
        match self.find_route_at(route.info.handler_name.as_str()) {
            Some(_) => Err(RegistryError::DuplicateHandler(route.info.handler_name.clone())),
            None => {
                let mut routes: Vec<RouteDescriptor> = Vec::new();
                core::mem::swap(&mut self.routes, &mut routes);
                routes.push(route);
                self.routes = routes;
                Ok(())
            },
        }
    }

    /// Takes a schema into the registry, unless a schema of the same name is
    /// there already.
    pub fn register_schema(&mut self, schema: SchemaDescriptor) -> (result: Result<(), RegistryError>)
        ensures
            final(self).routes() == old(self).routes(),
            match result {
                Ok(_) => !has_schema(old(self).schemas(), schema.name@) && final(self).schemas()
                    == old(self).schemas().push(schema),
                Err(RegistryError::DuplicateSchema(name)) => name@ == schema.name@ && has_schema(
                    old(self).schemas(),
                    name@,
                ) && final(self).schemas() == old(self).schemas(),
                Err(_) => false,
            },
    {
        proof {
            use_type_invariant(&*self);
        }
        match self.find_schema_at(schema.name.as_str()) {
            Some(_) => Err(RegistryError::DuplicateSchema(schema.name.clone())),
            None => {
                let mut schemas: Vec<SchemaDescriptor> = Vec::new();
                core::mem::swap(&mut self.schemas, &mut schemas);
                schemas.push(schema);
                self.schemas = schemas;
                Ok(())
            },
        }
    }

    fn find_route_at(&self, handler_name: &str) -> (found: Option<usize>)
        ensures
            match found {
                Some(i) => i < self.routes().len() && self.routes()[i as int].info.handler_name@
                    == handler_name@,
                None => !has_handler(self.routes(), handler_name@),
            },
    {
        let key = String::from_str(handler_name);
        let mut i: usize = 0;
        while i < self.routes.len()
            invariant
                i <= self.routes.len(),
                key@ == handler_name@,
                forall|k: int|
                    0 <= k < i ==> (#[trigger] self.routes@[k]).info.handler_name@ != handler_name@,
            decreases self.routes.len() - i,
        {
            if self.routes[i].info.handler_name == key {
                return Some(i);
            }
            i += 1;
        }
        None
    }

    fn find_schema_at(&self, name: &str) -> (found: Option<usize>)
        ensures
            match found {
                Some(i) => i < self.schemas().len() && self.schemas()[i as int].name@ == name@,
                None => !has_schema(self.schemas(), name@),
            },
    {
        let key = String::from_str(name);
        let mut i: usize = 0;
        while i < self.schemas.len()
            invariant
                i <= self.schemas.len(),
                key@ == name@,
                forall|k: int| 0 <= k < i ==> (#[trigger] self.schemas@[k]).name@ != name@,
            decreases self.schemas.len() - i,
        {
            if self.schemas[i].name == key {
                return Some(i);
            }
            i += 1;
        }
        None
    }

    /// All the registered routes. No two of them have handlers of one name.
    pub fn all_routes(&self) -> (routes: &Vec<RouteDescriptor>)
        ensures
            routes@ == self.routes(),
            distinct_handlers(routes@),
    {
        proof {
            use_type_invariant(self);
        }
        &self.routes
    }

    /// All the registered schemas. No two of them have one name.
    pub fn all_schemas(&self) -> (schemas: &Vec<SchemaDescriptor>)
        ensures
            schemas@ == self.schemas(),
            distinct_schemas(schemas@),
    {
        proof {
            use_type_invariant(self);
        }
        &self.schemas
    }

    /// The route whose handler is named `handler_name`.
    pub fn find_route(&self, handler_name: &str) -> (found: Option<&RouteDescriptor>)
        ensures
            match found {
                Some(route) => route.info.handler_name@ == handler_name@ && self.routes().contains(
                    *route,
                ),
                None => !has_handler(self.routes(), handler_name@),
            },
    {
        match self.find_route_at(handler_name) {
            Some(i) => {
                Some(&self.routes[i])
            },
            None => None,
        }
    }

    /// The schema named `name`.
    pub fn find_schema(&self, name: &str) -> (found: Option<&SchemaDescriptor>)
        ensures
            match found {
                Some(schema) => schema.name@ == name@ && self.schemas().contains(*schema),
                None => !has_schema(self.schemas(), name@),
            },
    {
        match self.find_schema_at(name) {
            Some(i) => {
                Some(&self.schemas[i])
            },
            None => None,
        }
    }
}

} // verus!
