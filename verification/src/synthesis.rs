//! Schema synthesis: from a type descriptor to the schema of the type and the
//! schemas of all the objects that it mentions, each listed once.

use crate::descriptor::{
    field_properties, fragment, object_schema, schema_of_fields, FieldDescriptor, TypeDescriptor,
};
use crate::names::{
    distinct_names, has_entry, has_name, lemma_occurs_once, lemma_put_entry, occurrences, put,
    NameMap,
};
use crate::json::members_from;
use crate::openapi::{
    component_path, lemma_same_schemas, schemas_json, Property, PropertyModel, Schema, SchemaModel,
};
use vstd::prelude::*;

verus! {

/// Whether `ty` holds, at any depth, an object named `name` whose schema is
/// `schema`.
pub open spec fn declares(ty: TypeDescriptor, name: Seq<char>, schema: SchemaModel) -> bool
    decreases ty,
{
    match ty {
        TypeDescriptor::Primitive(_, _) => false,
        TypeDescriptor::Reference(_) => false,
        TypeDescriptor::Optional(inner) => declares(*inner, name, schema),
        TypeDescriptor::Sequence(inner) => declares(*inner, name, schema),
        TypeDescriptor::StringMap(inner) => declares(*inner, name, schema),
        TypeDescriptor::Object(n, fields) => (n@ == name && object_schema(fields@) == schema)
            || exists|k: int|
            0 <= k < fields@.len() && declares((#[trigger] fields@[k]).ty, name, schema),
    }
}

/// Whether one of the first `count` fields holds an object named `name` whose
/// schema is `schema`.
pub open spec fn declared_before(
    fields: Seq<FieldDescriptor>,
    count: int,
    name: Seq<char>,
    schema: SchemaModel,
) -> bool {
    exists|k: int|
        0 <= k < count && k < fields.len() && declares((#[trigger] fields[k]).ty, name, schema)
}

/// No name stands for two different schemas.
pub open spec fn consistent(ty: TypeDescriptor) -> bool {
    forall|name: Seq<char>, a: SchemaModel, b: SchemaModel|
        #[trigger] declares(ty, name, a) && #[trigger] declares(ty, name, b) ==> a == b
}

/// `schema` is listed under `name` already, or `ty` holds such an object.
pub open spec fn known_or_declared(
    known: Seq<(Seq<char>, SchemaModel)>,
    ty: TypeDescriptor,
    name: Seq<char>,
    schema: SchemaModel,
) -> bool {
    has_entry(known, name, schema) || declares(ty, name, schema)
}

/// Among what is listed and what `ty` holds, `name` stands for two different
/// schemas.
pub open spec fn clash(known: Seq<(Seq<char>, SchemaModel)>, ty: TypeDescriptor, name: Seq<char>) -> bool {
    exists|a: SchemaModel, b: SchemaModel|
        a != b && #[trigger] known_or_declared(known, ty, name, a) && #[trigger] known_or_declared(
            known,
            ty,
            name,
            b,
        )
}

/// `after` lists what `before` lists and what `ty` holds, and nothing else.
pub open spec fn extends(
    after: Seq<(Seq<char>, SchemaModel)>,
    before: Seq<(Seq<char>, SchemaModel)>,
    ty: TypeDescriptor,
) -> bool {
    forall|name: Seq<char>, schema: SchemaModel| #[trigger]
        has_entry(after, name, schema) <==> known_or_declared(before, ty, name, schema)
}

proof fn lemma_entry_added(
    before: Seq<(Seq<char>, SchemaModel)>,
    name: Seq<char>,
    schema: SchemaModel,
    n: Seq<char>,
    s: SchemaModel,
)
    requires
        !has_name(before, name),
    ensures
        has_entry(put(before, name, schema), n, s) <==> (has_entry(before, n, s) || (n == name && s
            == schema)),
{
    let after = before.push((name, schema));
    if has_entry(before, n, s) {
        let k = choose|k: int| 0 <= k < before.len() && #[trigger] before[k] == (n, s);
        assert(after[k] == (n, s));
    }
    if n == name && s == schema {
        assert(after[before.len() as int] == (n, s));
    }
    if has_entry(after, n, s) {
        let k = choose|k: int| 0 <= k < after.len() && #[trigger] after[k] == (n, s);
        if k < before.len() {
            assert(before[k] == (n, s));
        }
    }
}

/// A type that only wraps another holds the objects of the other.
proof fn lemma_wrapped(
    before: Seq<(Seq<char>, SchemaModel)>,
    after: Seq<(Seq<char>, SchemaModel)>,
    inner: TypeDescriptor,
    outer: TypeDescriptor,
    result: Result<(), String>,
)
    requires
        forall|n: Seq<char>, s: SchemaModel| declares(outer, n, s) == declares(inner, n, s),
        match result {
            Ok(_) => extends(after, before, inner),
            Err(name) => clash(before, inner, name@),
        },
    ensures
        match result {
            Ok(_) => extends(after, before, outer),
            Err(name) => clash(before, outer, name@),
        },
{
    match result {
        Ok(_) => {
        },
        Err(name) => {
            let (a, b) = choose|a: SchemaModel, b: SchemaModel|
                a != b && #[trigger] known_or_declared(before, inner, name@, a)
                    && #[trigger] known_or_declared(before, inner, name@, b);
            assert(known_or_declared(before, outer, name@, a));
            assert(known_or_declared(before, outer, name@, b));
        },
    }
}

/// Lists in `nested` the schema of every object that `ty` holds. Fails with
/// the name of an object that would stand for two different schemas.
#[verifier::loop_isolation(false)]
pub(crate) fn register(ty: &TypeDescriptor, nested: &mut NameMap<Schema>) -> (result: Result<(), String>)
    ensures
        match result {
            Ok(_) => extends(final(nested)@, old(nested)@, *ty),
            Err(name) => clash(old(nested)@, *ty, name@),
        },
        distinct_names(old(nested)@) ==> distinct_names(final(nested)@),
    decreases ty,
{
    let ghost before = nested@;
    match ty {
        TypeDescriptor::Primitive(_, _) => {
            Ok(())
        },
        TypeDescriptor::Reference(_) => {
            Ok(())
        },
        TypeDescriptor::Optional(inner) => {
            let result = register(inner, nested);
            proof {
                lemma_wrapped(before, nested@, **inner, *ty, result);
            }
            result
        },
        TypeDescriptor::Sequence(inner) => {
            let result = register(inner, nested);
            proof {
                lemma_wrapped(before, nested@, **inner, *ty, result);
            }
            result
        },
        TypeDescriptor::StringMap(inner) => {
            let result = register(inner, nested);
            proof {
                lemma_wrapped(before, nested@, **inner, *ty, result);
            }
            result
        },
        TypeDescriptor::Object(name, fields) => {
            let schema = schema_of_fields(fields);
            let ghost own = object_schema(fields@);
            match nested.get(name.as_str()) {
                Some(existing) => {
                    assert(has_entry(before, name@, existing@)) by {
                        let k = choose|k: int|
                            0 <= k < nested.entries().len() && #[trigger] nested.entries()[k] == (
                                name@,
                                *existing,
                            );
                        assert(before[k] == (name@, existing@));
                    }
                    if !existing.same_as(&schema) {
                        assert(known_or_declared(before, *ty, name@, existing@));
                        assert(known_or_declared(before, *ty, name@, own));
                        return Err(name.clone());
                    }
                },
                None => {
                    nested.store(name.clone(), schema);
                    proof {
                        assert forall|n: Seq<char>, s: SchemaModel| #[trigger]
                            has_entry(nested@, n, s) <==> (has_entry(before, n, s) || (n == name@
                                && s == own)) by {
                            lemma_entry_added(before, name@, own, n, s);
                        }
                    }
                },
            }
            let mut i: usize = 0;
            while i < fields.len()
                invariant
                    i <= fields.len(),
                    *ty == TypeDescriptor::Object(*name, *fields),
                    own == object_schema(fields@),
                    before == old(nested)@,
                    distinct_names(before) ==> distinct_names(nested@),
                    forall|n: Seq<char>, s: SchemaModel| #[trigger]
                        has_entry(nested@, n, s) <==> (has_entry(before, n, s) || (n == name@ && s
                            == own) || declared_before(fields@, i as int, n, s)),
                decreases fields.len() - i,
            {
                let ghost current = nested@;
                match register(&fields[i].ty, nested) {
                    Err(culprit) => {
                        proof {
                            let (a, b) = choose|a: SchemaModel, b: SchemaModel|
                                a != b && #[trigger] known_or_declared(
                                    current,
                                    fields@[i as int].ty,
                                    culprit@,
                                    a,
                                ) && #[trigger] known_or_declared(
                                    current,
                                    fields@[i as int].ty,
                                    culprit@,
                                    b,
                                );
                            lemma_part_of_object(before, *name, *fields, i as int, current, culprit@, a);
                            lemma_part_of_object(before, *name, *fields, i as int, current, culprit@, b);
                        }
                        return Err(culprit);
                    },
                    Ok(_) => {},
                }
                i += 1;
            }
            Ok(())
        },
    }
}

/// What is listed while the fields of an object are walked, and what a field
/// holds, is listed before the walk or held by the object.
proof fn lemma_part_of_object(
    before: Seq<(Seq<char>, SchemaModel)>,
    name: String,
    fields: Vec<FieldDescriptor>,
    i: int,
    current: Seq<(Seq<char>, SchemaModel)>,
    n: Seq<char>,
    s: SchemaModel,
)
    requires
        0 <= i < fields@.len(),
        known_or_declared(current, fields@[i].ty, n, s),
        has_entry(current, n, s) <==> (has_entry(before, n, s) || (n == name@ && s == object_schema(
            fields@,
        )) || declared_before(fields@, i, n, s)),
    ensures
        known_or_declared(before, TypeDescriptor::Object(name, fields), n, s),
{
    let ty = TypeDescriptor::Object(name, fields);
    if declares(fields@[i].ty, n, s) {
        assert(declares(ty, n, s));
    } else if declared_before(fields@, i, n, s) {
        let k = choose|k: int|
            0 <= k < i && k < fields@.len() && declares((#[trigger] fields@[k]).ty, n, s);
        assert(declares(ty, n, s));
    }
}

/// The schema of a type itself: for an object its object schema, written out;
/// for any other type the node that stands for it.
#[derive(Debug)]
pub enum Root {
    Object(Schema),
    Inline(Property),
}

/// What a `Root` holds.
pub enum RootModel {
    Object(SchemaModel),
    Inline(PropertyModel),
}

impl View for Root {
    type V = RootModel;

    open spec fn view(&self) -> RootModel {
        match self {
            Root::Object(schema) => RootModel::Object(schema@),
            Root::Inline(node) => RootModel::Inline(node@),
        }
    }
}

/// The schema of a type, with the schemas of the objects that the type
/// holds, by name.
#[derive(Debug)]
pub struct SchemaGraph {
    pub root: Root,
    pub nested: NameMap<Schema>,
}

/// What a `SchemaGraph` holds.
pub struct SchemaGraphModel {
    pub root: RootModel,
    pub nested: Seq<(Seq<char>, SchemaModel)>,
}

impl View for SchemaGraph {
    type V = SchemaGraphModel;

    open spec fn view(&self) -> SchemaGraphModel {
        SchemaGraphModel { root: self.root@, nested: self.nested@ }
    }
}

impl SchemaGraph {
    /// The object schema of the type itself, where the type is an object.
    pub fn schema(&self) -> (schema: Option<&Schema>)
        ensures
            match schema {
                Some(s) => self@.root == RootModel::Object(s@),
                None => self@.root is Inline,
            },
    {
        match &self.root {
            Root::Object(s) => Some(s),
            Root::Inline(_) => None,
        }
    }
}

/// Two objects of one name that differ in their schemas.
#[derive(Debug)]
pub struct NameCollision {
    /// The name that stands for more than one schema.
    pub name: String,
}

/// The schema of a type itself.
pub open spec fn root_of(ty: TypeDescriptor) -> RootModel {
    match ty {
        TypeDescriptor::Object(_, fields) => RootModel::Object(object_schema(fields@)),
        _ => RootModel::Inline(fragment(ty)),
    }
}

/// `graph` is the schema graph of `ty`: its root is the schema of `ty`; no
/// name is listed twice; and the schemas listed are those of the objects that
/// `ty` holds, each under the object's name.
pub open spec fn is_graph_of(graph: SchemaGraphModel, ty: TypeDescriptor) -> bool {
    &&& graph.root == root_of(ty)
    &&& distinct_names(graph.nested)
    &&& forall|name: Seq<char>, schema: SchemaModel| #[trigger]
        has_entry(graph.nested, name, schema) <==> declares(ty, name, schema)
}

/// In `ty` the name `name` stands for two different schemas.
pub open spec fn collides(ty: TypeDescriptor, name: Seq<char>) -> bool {
    exists|a: SchemaModel, b: SchemaModel|
        a != b && #[trigger] declares(ty, name, a) && #[trigger] declares(ty, name, b)
}

/// A type has a schema graph only if none of its names stands for two
/// different schemas.
pub proof fn lemma_graph_means_consistent(graph: SchemaGraphModel, ty: TypeDescriptor)
    requires
        is_graph_of(graph, ty),
    ensures
        consistent(ty),
{
    assert forall|name: Seq<char>, a: SchemaModel, b: SchemaModel| #[trigger]
        declares(ty, name, a) && #[trigger] declares(ty, name, b) implies a == b by {
        assert(has_entry(graph.nested, name, a));
        assert(has_entry(graph.nested, name, b));
        let i = choose|i: int| 0 <= i < graph.nested.len() && #[trigger] graph.nested[i] == (name, a);
        let j = choose|j: int| 0 <= j < graph.nested.len() && #[trigger] graph.nested[j] == (name, b);
        assert(graph.nested[i].0 == graph.nested[j].0);
    }
}

/// The schema graph of `ty`.
///
/// Every node of the descriptor is visited once. The schema of each object is
/// listed under the object's name when the object is first met, before its
/// fields are walked; an object met again must have the schema that is listed.
/// The call fails, with one of the names in question, exactly where a name
/// stands for two different schemas.
pub fn synthesize(ty: &TypeDescriptor) -> (result: Result<SchemaGraph, NameCollision>)
    ensures
        result is Ok <==> consistent(*ty),
        match result {
            Ok(graph) => is_graph_of(graph@, *ty),
            Err(collision) => collides(*ty, collision.name@),
        },
{
    let mut nested: NameMap<Schema> = NameMap::new();
    match register(ty, &mut nested) {
        Err(name) => Err(NameCollision { name }),
        Ok(_) => {
            let root = match ty {
                TypeDescriptor::Object(_, fields) => Root::Object(schema_of_fields(fields)),
                _ => Root::Inline(ty.to_fragment()),
            };
            let graph = SchemaGraph { root, nested };
            proof {
                lemma_graph_means_consistent(graph@, *ty);
            }
            Ok(graph)
        },
    }
}

/// A type has one schema graph: two graphs of one type have the same root
/// and list the same schemas under the same names, in whatever order.
pub proof fn lemma_graph_determined(first: SchemaGraphModel, second: SchemaGraphModel, ty: TypeDescriptor)
    requires
        is_graph_of(first, ty),
        is_graph_of(second, ty),
    ensures
        first.root == second.root,
        members_from(schemas_json(first.nested)) == members_from(schemas_json(second.nested)),
{
    assert forall|name: Seq<char>, schema: SchemaModel| #[trigger]
        has_entry(first.nested, name, schema) <==> has_entry(second.nested, name, schema) by {
        assert(has_entry(first.nested, name, schema) <==> declares(ty, name, schema));
    }
    lemma_same_schemas(first.nested, second.nested);
}

/// However often an object is referred to, and whether or not the references
/// run in a cycle, the schema graph lists the object exactly once, with its
/// own schema.
pub proof fn lemma_listed_once(
    graph: SchemaGraphModel,
    ty: TypeDescriptor,
    name: Seq<char>,
    schema: SchemaModel,
)
    requires
        is_graph_of(graph, ty),
        declares(ty, name, schema),
    ensures
        occurrences(graph.nested, name) == 1,
        has_entry(graph.nested, name, schema),
{
    assert(has_entry(graph.nested, name, schema));
    let i = choose|i: int| 0 <= i < graph.nested.len() && #[trigger] graph.nested[i] == (name, schema);
    assert(graph.nested[i].0 == name);
    lemma_occurs_once(graph.nested, name);
}

/// A name that no object of the type bears is not listed at all.
pub proof fn lemma_only_objects_listed(graph: SchemaGraphModel, ty: TypeDescriptor, name: Seq<char>)
    requires
        is_graph_of(graph, ty),
        forall|schema: SchemaModel| !declares(ty, name, schema),
    ensures
        occurrences(graph.nested, name) == 0,
{
    if has_name(graph.nested, name) {
        let i = choose|i: int| 0 <= i < graph.nested.len() && #[trigger] graph.nested[i].0 == name;
        assert(has_entry(graph.nested, name, graph.nested[i].1));
    }
    lemma_occurs_once(graph.nested, name);
}

/// Whether `ty` holds, at any depth, an object named `name` with exactly the
/// fields `fields`.
pub open spec fn holds_object(ty: TypeDescriptor, name: Seq<char>, fields: Seq<FieldDescriptor>) -> bool
    decreases ty,
{
    match ty {
        TypeDescriptor::Primitive(_, _) => false,
        TypeDescriptor::Reference(_) => false,
        TypeDescriptor::Optional(inner) => holds_object(*inner, name, fields),
        TypeDescriptor::Sequence(inner) => holds_object(*inner, name, fields),
        TypeDescriptor::StringMap(inner) => holds_object(*inner, name, fields),
        TypeDescriptor::Object(n, own) => (n@ == name && own@ == fields) || exists|k: int|
            0 <= k < own@.len() && holds_object((#[trigger] own@[k]).ty, name, fields),
    }
}

/// An object that a type holds is declared by the type, and so is whatever
/// the object's fields declare.
pub proof fn lemma_held_is_declared(
    ty: TypeDescriptor,
    name: Seq<char>,
    fields: Seq<FieldDescriptor>,
)
    requires
        holds_object(ty, name, fields),
    ensures
        declares(ty, name, object_schema(fields)),
        forall|k: int, n: Seq<char>, s: SchemaModel|
            0 <= k < fields.len() && #[trigger] declares(fields[k].ty, n, s) ==> declares(ty, n, s),
    decreases ty,
{
    match ty {
        TypeDescriptor::Optional(inner) => {
            lemma_held_is_declared(*inner, name, fields);
        },
        TypeDescriptor::Sequence(inner) => {
            lemma_held_is_declared(*inner, name, fields);
        },
        TypeDescriptor::StringMap(inner) => {
            lemma_held_is_declared(*inner, name, fields);
        },
        TypeDescriptor::Object(n, own) => {
            if !(n@ == name && own@ == fields) {
                let at = choose|k: int|
                    0 <= k < own@.len() && holds_object((#[trigger] own@[k]).ty, name, fields);
                lemma_held_is_declared(own@[at].ty, name, fields);
            }
        },
        _ => {},
    }
}

/// The node of a field is stored under the field's name, unless a later field
/// of the same name replaces it.
pub proof fn lemma_field_property(fields: Seq<FieldDescriptor>, k: int)
    requires
        0 <= k < fields.len(),
        forall|j: int| k < j < fields.len() ==> (#[trigger] fields[j]).name@ != fields[k].name@,
    ensures
        has_entry(field_properties(fields), fields[k].name@, fragment(fields[k].ty)),
    decreases fields.len(),
{
    let earlier = fields.drop_last();
    let last = fields.last();
    if k == fields.len() - 1 {
        lemma_put_entry(
            field_properties(earlier),
            last.name@,
            fragment(last.ty),
            last.name@,
            fragment(last.ty),
        );
    } else {
        lemma_field_property(earlier, k);
        lemma_put_entry(
            field_properties(earlier),
            last.name@,
            fragment(last.ty),
            fields[k].name@,
            fragment(fields[k].ty),
        );
    }
}

/// A field that is an optional object is a nullable reference, and the
/// reference can be followed: the graph lists the object's schema under the
/// name that the reference gives.
pub proof fn lemma_optional_object_field(
    graph: SchemaGraphModel,
    ty: TypeDescriptor,
    owner: Seq<char>,
    fields: Seq<FieldDescriptor>,
    k: int,
    target: String,
    target_fields: Vec<FieldDescriptor>,
)
    requires
        is_graph_of(graph, ty),
        holds_object(ty, owner, fields),
        0 <= k < fields.len(),
        fields[k].ty == TypeDescriptor::Optional(
            Box::new(TypeDescriptor::Object(target, target_fields)),
        ),
    ensures
        fragment(fields[k].ty).nullable,
        fragment(fields[k].ty).ref_path == Some(component_path(target@)),
        has_entry(graph.nested, target@, object_schema(target_fields@)),
        occurrences(graph.nested, target@) == 1,
        (forall|j: int| k < j < fields.len() ==> (#[trigger] fields[j]).name@ != fields[k].name@)
            ==> has_entry(object_schema(fields).properties, fields[k].name@, fragment(fields[k].ty)),
{
    lemma_held_is_declared(ty, owner, fields);
    let inner = TypeDescriptor::Object(target, target_fields);
    assert(fragment(inner) == PropertyModel::reference(component_path(target@)));
    assert(declares(inner, target@, object_schema(target_fields@)));
    assert(declares(fields[k].ty, target@, object_schema(target_fields@)));
    lemma_listed_once(graph, ty, target@, object_schema(target_fields@));
    if forall|j: int| k < j < fields.len() ==> (#[trigger] fields[j]).name@ != fields[k].name@ {
        lemma_field_property(fields, k);
    }
}

} // verus!
