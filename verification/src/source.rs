//! Schemas as a schema generator describes a declared type, and their
//! conversion into the schemas of the served document.
//!
//! The types here hold, as plain values, the parts of a generated JSON Schema
//! that the conversion reads: the reference, the instance type, the `anyOf`
//! branches, the schema of an array's items, and an object's properties.
//! Properties and definitions are tables: as in the generator's own maps, no
//! name stands in them twice.

use crate::names::{distinct_names, has_entry, has_name, lemma_occurs_once, occurrences, NameMap};
use crate::openapi::{component_path, Property, PropertyModel, Schema, SchemaModel, SchemaResult};
use crate::text::{copy_texts, same_text, strip_leading, texts_of, without_prefix};
use vstd::prelude::*;

verus! {

/// The JSON type of an instance.
#[derive(Clone, Copy, PartialEq, Eq, Structural, Debug)]
pub enum InstanceType {
    Null,
    Boolean,
    Object,
    Array,
    Number,
    String,
    Integer,
}

/// One instance type, or a list of them.
#[derive(Debug)]
pub enum InstanceTypes {
    Single(InstanceType),
    Several(Vec<InstanceType>),
}

/// A schema: either the trivial schema that accepts or rejects everything, or
/// a schema object.
#[derive(Debug)]
pub enum SourceSchema {
    Bool(bool),
    Object(SourceObject),
}

/// A schema object.
#[derive(Debug)]
pub struct SourceObject {
    pub instance_type: Option<InstanceTypes>,
    /// The branches of `anyOf`.
    pub any_of: Option<Vec<SourceSchema>>,
    pub array: Option<SourceArray>,
    pub object: Option<SourceFields>,
    /// The `$ref` of the schema.
    pub reference: Option<String>,
}

/// What a schema says of arrays.
#[derive(Debug)]
pub struct SourceArray {
    /// The schema of the items, where one schema holds for all of them.
    pub item: Option<Box<SourceSchema>>,
}

/// What a schema says of objects.
#[derive(Debug)]
pub struct SourceFields {
    /// The schemas of the properties, by name.
    pub properties: NameMap<SourceSchema>,
    pub required: Vec<String>,
    /// The schema of the properties that are not listed.
    pub additional_properties: Option<Box<SourceSchema>>,
}

/// The schema of a declared type, with the definitions that it refers to.
#[derive(Debug)]
pub struct SourceRoot {
    pub schema: SourceObject,
    /// The schemas that the references refer to, by name.
    pub definitions: NameMap<SourceSchema>,
}

/// The name that the served document gives to an instance type.
pub open spec fn instance_type_text(ty: InstanceType) -> Seq<char> {
    match ty {
        InstanceType::String => "string"@,
        InstanceType::Integer => "integer"@,
        InstanceType::Number => "number"@,
        InstanceType::Boolean => "boolean"@,
        InstanceType::Array => "array"@,
        InstanceType::Object => "object"@,
        InstanceType::Null => "null"@,
    }
}

/// The name that the served document gives to an instance type.
pub fn format_instance_type(ty: &InstanceType) -> (text: String)
    ensures
        text@ == instance_type_text(*ty),
{
    match ty {
        InstanceType::String => String::from_str("string"),
        InstanceType::Integer => String::from_str("integer"),
        InstanceType::Number => String::from_str("number"),
        InstanceType::Boolean => String::from_str("boolean"),
        InstanceType::Array => String::from_str("array"),
        InstanceType::Object => String::from_str("object"),
        InstanceType::Null => String::from_str("null"),
    }
}

/// Whether a branch of `anyOf` stands for a value rather than for `null`: a
/// schema object whose single instance type is not `null`, or which has no
/// single instance type but a reference, an object part or an array part.
pub open spec fn is_value_branch(schema: SourceSchema) -> bool {
    match schema {
        SourceSchema::Object(o) => match o.instance_type {
            Some(InstanceTypes::Single(t)) => t != InstanceType::Null,
            _ => o.reference is Some || o.object is Some || o.array is Some,
        },
        SourceSchema::Bool(_) => false,
    }
}

/// `at` is the position of the first branch that stands for a value.
pub open spec fn first_value_branch(branches: Seq<SourceSchema>, at: int) -> bool {
    &&& 0 <= at < branches.len()
    &&& is_value_branch(branches[at])
    &&& forall|j: int| 0 <= j < at ==> !is_value_branch(#[trigger] branches[j])
}

/// No branch stands for a value.
pub open spec fn no_value_branch(branches: Seq<SourceSchema>) -> bool {
    forall|j: int| 0 <= j < branches.len() ==> !is_value_branch(#[trigger] branches[j])
}

/// `at` is the position of the first instance type that is not `null`.
pub open spec fn first_value_type(types: Seq<InstanceType>, at: int) -> bool {
    &&& 0 <= at < types.len()
    &&& types[at] != InstanceType::Null
    &&& forall|j: int| 0 <= j < at ==> #[trigger] types[j] == InstanceType::Null
}

/// The name for a list of instance types: that of its first type that is not
/// `null`, or `string` where there is none.
pub open spec fn listed_type_text(types: Seq<InstanceType>) -> Seq<char> {
    if exists|at: int| first_value_type(types, at) {
        instance_type_text(types[choose|at: int| first_value_type(types, at)])
    } else {
        "string"@
    }
}

/// The node of the served document that stands for `schema`.
///
/// A reference to a definition becomes a reference to the component of the
/// same name. A schema with `anyOf` becomes what its first value branch
/// becomes, made nullable. Otherwise the instance type decides: `array`
/// carries the node of its items, `object` the node of its additional
/// properties; a list of types stands for its first type that is not `null`,
/// and where it holds `null` the node is nullable and otherwise the same; a
/// schema that says nothing of its type is taken for a string.
pub open spec fn property_of(schema: SourceSchema) -> PropertyModel
    decreases schema,
{
    match schema {
        SourceSchema::Bool(_) => PropertyModel::plain("string"@),
        SourceSchema::Object(o) => {
            if o.reference is Some {
                PropertyModel::reference(
                    component_path(without_prefix(o.reference->0@, "#/definitions/"@)),
                )
            } else if o.any_of is Some && exists|at: int| first_value_branch(o.any_of->0@, at) {
                let at = choose|at: int| first_value_branch(o.any_of->0@, at);
                PropertyModel { nullable: true, ..property_of(o.any_of->0@[at]) }
            } else {
                match o.instance_type {
                    None => PropertyModel::plain("string"@),
                    Some(InstanceTypes::Several(types)) => {
                        PropertyModel {
                            nullable: types@.contains(InstanceType::Null),
                            ..typed_property_of(o, listed_type_text(types@))
                        }
                    },
                    Some(InstanceTypes::Single(t)) => typed_property_of(o, instance_type_text(t)),
                }
            }
        },
    }
}

/// The node for a schema object of the type named `kind`.
pub open spec fn typed_property_of(o: SourceObject, kind: Seq<char>) -> PropertyModel
    decreases o,
{
    if kind == "array"@ {
        PropertyModel {
            items: match o.array {
                Some(a) => match a.item {
                    Some(item) => Some(Box::new(property_of(*item))),
                    None => None,
                },
                None => None,
            },
            ..PropertyModel::plain(kind)
        }
    } else if kind == "object"@ {
        PropertyModel {
            additional_properties: match o.object {
                Some(f) => match f.additional_properties {
                    Some(extra) => Some(Box::new(property_of(*extra))),
                    None => None,
                },
                None => None,
            },
            ..PropertyModel::plain(kind)
        }
    } else {
        PropertyModel::plain(kind)
    }
}

/// The node that stands for a schema either refers to a named schema and
/// carries nothing else but its `nullable` flag, or is of a concrete kind; and
/// so does every node inside it.
pub proof fn lemma_property_well_formed(schema: SourceSchema)
    ensures
        property_of(schema).well_formed(),
    decreases schema,
{
    match schema {
        SourceSchema::Bool(_) => {},
        SourceSchema::Object(o) => {
            if o.reference is Some {
                // A reference carries nothing else.
            } else if o.any_of is Some && exists|at: int| first_value_branch(o.any_of->0@, at) {
                let at = choose|at: int| first_value_branch(o.any_of->0@, at);
                lemma_property_well_formed(o.any_of->0@[at]);
            } else {
                match o.instance_type {
                    None => {},
                    Some(InstanceTypes::Several(types)) => {
                        lemma_typed_well_formed(o, listed_type_text(types@));
                    },
                    Some(InstanceTypes::Single(t)) => {
                        lemma_typed_well_formed(o, instance_type_text(t));
                    },
                }
            }
        },
    }
}

/// The node for a schema object of a given type is well-formed.
pub proof fn lemma_typed_well_formed(o: SourceObject, kind: Seq<char>)
    ensures
        typed_property_of(o, kind).well_formed(),
    decreases o,
{
    if kind == "array"@ {
        match o.array {
            Some(a) => match a.item {
                Some(item) => {
                    lemma_property_well_formed(*item);
                },
                None => {},
            },
            None => {},
        }
    } else if kind == "object"@ {
        match o.object {
            Some(f) => match f.additional_properties {
                Some(extra) => {
                    lemma_property_well_formed(*extra);
                },
                None => {},
            },
            None => {},
        }
    }
}

fn is_null_type(ty: &InstanceType) -> (null: bool)
    ensures
        null == (*ty == InstanceType::Null),
{
    match ty {
        InstanceType::Null => true,
        _ => false,
    }
}

fn stands_for_value(schema: &SourceSchema) -> (keeps: bool)
    ensures
        keeps == is_value_branch(*schema),
{
    match schema {
        SourceSchema::Object(o) => match &o.instance_type {
            Some(InstanceTypes::Single(t)) => !is_null_type(t),
            _ => o.reference.is_some() || o.object.is_some() || o.array.is_some(),
        },
        SourceSchema::Bool(_) => false,
    }
}

fn find_value_branch(branches: &Vec<SourceSchema>) -> (found: Option<usize>)
    ensures
        match found {
            Some(at) => first_value_branch(branches@, at as int),
            None => no_value_branch(branches@),
        },
{
    let mut i: usize = 0;
    while i < branches.len()
        invariant
            i <= branches.len(),
            forall|j: int| 0 <= j < i ==> !is_value_branch(#[trigger] branches@[j]),
        decreases branches.len() - i,
    {
        if stands_for_value(&branches[i]) {
            return Some(i);
        }
        i += 1;
    }
    None
}

/// The name for a list of instance types, and whether the list holds `null`.
fn listed_type(types: &Vec<InstanceType>) -> (found: (String, bool))
    ensures
        found.0@ == listed_type_text(types@),
        found.1 == types@.contains(InstanceType::Null),
{
    let mut first: Option<usize> = None;
    let mut has_null = false;
    let mut i: usize = 0;
    while i < types.len()
        invariant
            i <= types.len(),
            match first {
                Some(at) => at < i && first_value_type(types@, at as int),
                None => forall|j: int| 0 <= j < i ==> #[trigger] types@[j] == InstanceType::Null,
            },
            has_null == exists|j: int| 0 <= j < i && #[trigger] types@[j] == InstanceType::Null,
        decreases types.len() - i,
    {
        if is_null_type(&types[i]) {
            has_null = true;
        } else if first.is_none() {
            first = Some(i);
        }
        i += 1;
    }
    let text = match first {
        Some(at) => {
            format_instance_type(&types[at])
        },
        None => {
            String::from_str("string")
        },
    };
    (text, has_null)
}

/// The node of the served document that stands for `schema`.
pub fn property_from_schemars_schema(schema: &SourceSchema) -> (property: Property)
    ensures
        property@ == property_of(*schema),
    decreases schema,
{
    match schema {
        SourceSchema::Bool(_) => Property::plain("string"),
        SourceSchema::Object(o) => {
            if let Some(reference) = &o.reference {
                let name = strip_leading(reference.as_str(), "#/definitions/");
                let mut path = String::from_str("#/components/schemas/");
                path.append(name.as_str());
                return Property::reference(path);
            }
            if let Some(any_of) = &o.any_of {
                match find_value_branch(any_of) {
                    Some(at) => {
                        let mut property = property_from_schemars_schema(&any_of[at]);
                        property.nullable = true;
                        return property;
                    },
                    None => {
                    },
                }
            }
            let (kind, nullable) = match &o.instance_type {
                None => {
                    return Property::plain("string");
                },
                Some(InstanceTypes::Single(t)) => (format_instance_type(t), false),
                Some(InstanceTypes::Several(types)) => listed_type(types),
            };
            let mut property = Property::plain(kind.as_str());
            if same_text(kind.as_str(), "array") {
                if let Some(a) = &o.array {
                    if let Some(item) = &a.item {
                        property.items = Some(Box::new(property_from_schemars_schema(item)));
                    }
                }
            } else if same_text(kind.as_str(), "object") {
                if let Some(f) = &o.object {
                    if let Some(extra) = &f.additional_properties {
                        property.additional_properties = Some(
                            Box::new(property_from_schemars_schema(extra)),
                        );
                    }
                }
            }
            assert(property@ == typed_property_of(*o, kind@));
            property.nullable = nullable;
            property
        },
    }
}

/// The properties of an object schema: the node of each property under the
/// property's name, in the order of the table.
pub open spec fn collected(properties: Seq<(Seq<char>, SourceSchema)>) -> Seq<
    (Seq<char>, PropertyModel),
> {
    properties.map_values(|e: (Seq<char>, SourceSchema)| (e.0, property_of(e.1)))
}

/// The object schema for what a schema says of objects; an empty one where it
/// says nothing.
pub open spec fn object_schema_of(fields: Option<SourceFields>) -> SchemaModel {
    match fields {
        Some(f) => SchemaModel {
            kind: "object"@,
            properties: collected(f.properties.entries()),
            required: texts_of(f.required@),
        },
        None => SchemaModel { kind: "object"@, properties: Seq::empty(), required: Seq::empty() },
    }
}

/// Whether a definition describes an object, and so becomes a nested schema.
pub open spec fn describes_object(schema: SourceSchema) -> bool {
    schema matches SourceSchema::Object(o) && o.object is Some
}

/// The nested schemas: the object schema of each definition that describes an
/// object, under the definition's name, in the order of the table.
pub open spec fn definitions_of(definitions: Seq<(Seq<char>, SourceSchema)>) -> Seq<
    (Seq<char>, SchemaModel),
>
    decreases definitions.len(),
{
    if definitions.len() == 0 {
        Seq::empty()
    } else {
        let earlier = definitions_of(definitions.drop_last());
        let last = definitions.last();
        if describes_object(last.1) {
            earlier.push((last.0, object_schema_of(last.1->Object_0.object)))
        } else {
            earlier
        }
    }
}

/// Every nested schema comes from a definition of its name.
pub proof fn lemma_nested_names(definitions: Seq<(Seq<char>, SourceSchema)>, name: Seq<char>)
    ensures
        has_name(definitions_of(definitions), name) <==> exists|i: int|
            0 <= i < definitions.len() && (#[trigger] definitions[i]).0 == name
                && describes_object(definitions[i].1),
    decreases definitions.len(),
{
    if definitions.len() > 0 {
        let earlier = definitions.drop_last();
        let last = definitions.len() - 1;
        let nested = definitions_of(definitions);
        let before = definitions_of(earlier);
        lemma_nested_names(earlier, name);
        if has_name(before, name) {
            let k = choose|k: int| 0 <= k < before.len() && #[trigger] before[k].0 == name;
            assert(nested[k].0 == name);
            let i = choose|i: int|
                0 <= i < earlier.len() && (#[trigger] earlier[i]).0 == name && describes_object(
                    earlier[i].1,
                );
            assert(definitions[i] == earlier[i]);
        }
        if has_name(nested, name) && !has_name(before, name) {
            let k = choose|k: int| 0 <= k < nested.len() && #[trigger] nested[k].0 == name;
            if k < before.len() {
                assert(before[k].0 == name);
            }
            assert(definitions[last].0 == name);
        }
        if exists|i: int|
            0 <= i < definitions.len() && (#[trigger] definitions[i]).0 == name && describes_object(
                definitions[i].1,
            ) {
            let i = choose|i: int|
                0 <= i < definitions.len() && (#[trigger] definitions[i]).0 == name
                    && describes_object(definitions[i].1);
            if i < last {
                assert(earlier[i] == definitions[i]);
            } else {
                assert(nested[before.len() as int].0 == name);
            }
        }
    }
}

/// Among definitions of distinct names, the nested schemas have distinct
/// names, and the object schema of each definition that describes an object
/// is listed under the definition's name.
pub proof fn lemma_nested_distinct(definitions: Seq<(Seq<char>, SourceSchema)>)
    requires
        distinct_names(definitions),
    ensures
        distinct_names(definitions_of(definitions)),
        forall|i: int|
            0 <= i < definitions.len() && describes_object((#[trigger] definitions[i]).1)
                ==> has_entry(
                definitions_of(definitions),
                definitions[i].0,
                object_schema_of(definitions[i].1->Object_0.object),
            ),
    decreases definitions.len(),
{
    if definitions.len() > 0 {
        let earlier = definitions.drop_last();
        let last = definitions.len() - 1;
        let nested = definitions_of(definitions);
        let before = definitions_of(earlier);
        assert(distinct_names(earlier)) by {
            assert forall|a: int, b: int|
                0 <= a < earlier.len() && 0 <= b < earlier.len() && a != b implies #[trigger] earlier[a].0
                != #[trigger] earlier[b].0 by {
                assert(earlier[a] == definitions[a]);
                assert(earlier[b] == definitions[b]);
            }
        }
        lemma_nested_distinct(earlier);
        lemma_nested_names(earlier, definitions[last].0);
        assert(!has_name(before, definitions[last].0)) by {
            if has_name(before, definitions[last].0) {
                let i = choose|i: int|
                    0 <= i < earlier.len() && (#[trigger] earlier[i]).0 == definitions[last].0
                        && describes_object(earlier[i].1);
                assert(earlier[i] == definitions[i]);
            }
        }
        assert forall|a: int, b: int|
            0 <= a < nested.len() && 0 <= b < nested.len() && a != b implies #[trigger] nested[a].0
            != #[trigger] nested[b].0 by {
            if a < before.len() && b < before.len() {
                assert(before[a].0 != before[b].0);
            } else if a < before.len() {
                assert(before[a].0 == nested[a].0);
            } else if b < before.len() {
                assert(before[b].0 == nested[b].0);
            }
        }
        assert forall|i: int|
            0 <= i < definitions.len() && describes_object(
                (#[trigger] definitions[i]).1,
            ) implies has_entry(
            nested,
            definitions[i].0,
            object_schema_of(definitions[i].1->Object_0.object),
        ) by {
            if i < last {
                assert(earlier[i] == definitions[i]);
                let k = choose|k: int|
                    0 <= k < before.len() && #[trigger] before[k] == (
                        earlier[i].0,
                        object_schema_of(earlier[i].1->Object_0.object),
                    );
                assert(nested[k] == before[k]);
            } else {
                assert(nested[before.len() as int] == (
                    definitions[i].0,
                    object_schema_of(definitions[i].1->Object_0.object),
                ));
            }
        }
    }
}

/// Definitions that refer to each other, in a cycle or not, are each listed
/// once: a definition that describes an object has exactly one nested schema
/// of its name, which is its own object schema.
pub proof fn lemma_definition_listed_once(definitions: Seq<(Seq<char>, SourceSchema)>, i: int)
    requires
        distinct_names(definitions),
        0 <= i < definitions.len(),
        describes_object(definitions[i].1),
    ensures
        occurrences(definitions_of(definitions), definitions[i].0) == 1,
        has_entry(
            definitions_of(definitions),
            definitions[i].0,
            object_schema_of(definitions[i].1->Object_0.object),
        ),
{
    lemma_nested_distinct(definitions);
    let nested = definitions_of(definitions);
    let wanted = object_schema_of(definitions[i].1->Object_0.object);
    assert(has_entry(nested, definitions[i].0, wanted));
    let k = choose|k: int| 0 <= k < nested.len() && #[trigger] nested[k] == (definitions[i].0, wanted);
    assert(nested[k].0 == definitions[i].0);
    lemma_occurs_once(nested, definitions[i].0);
}

/// A reference to a definition is a reference to the component of the
/// definition's name, whatever the name is; it is never a copy of what the
/// definition holds.
pub proof fn lemma_reference_resolves(o: SourceObject, name: Seq<char>)
    requires
        o.reference is Some,
        o.reference->0@ == "#/definitions/"@ + name,
    ensures
        property_of(SourceSchema::Object(o)) == PropertyModel::reference(component_path(name)),
{
    let prefix = "#/definitions/"@;
    let whole = prefix + name;
    assert(whole.subrange(0, prefix.len() as int) =~= prefix);
    assert(whole.skip(prefix.len() as int) =~= name);
}

/// What a `SchemaResult` holds.
pub struct SchemaResultModel {
    pub schema: SchemaModel,
    pub nested: Seq<(Seq<char>, SchemaModel)>,
}

impl View for SchemaResult {
    type V = SchemaResultModel;

    open spec fn view(&self) -> SchemaResultModel {
        SchemaResultModel { schema: self.schema@, nested: self.nested@ }
    }
}

fn object_schema(fields: &Option<SourceFields>) -> (schema: Schema)
    ensures
        schema@ == object_schema_of(*fields),
        distinct_names(schema@.properties),
{
    let mut properties: NameMap<Property> = NameMap::new();
    let mut required: Vec<String> = Vec::new();
    assert(properties@ =~= Seq::empty());
    if let Some(f) = fields {
        let n = f.properties.len();
        let ghost wanted = collected(f.properties.entries());
        let mut i: usize = 0;
        assert(properties@ =~= wanted.take(0));
        while i < n
            invariant
                i <= n,
                n == f.properties.entries().len(),
                distinct_names(f.properties.entries()),
                wanted == collected(f.properties.entries()),
                properties@ == wanted.take(i as int),
                distinct_names(properties@),
            decreases n - i,
        {
            let name = f.properties.name_at(i);
            let property = property_from_schemars_schema(f.properties.value_at(i));
            proof {
                let listed = wanted.take(i as int);
                assert(!has_name(listed, name@)) by {
                    if has_name(listed, name@) {
                        let j = choose|j: int| 0 <= j < listed.len() && #[trigger] listed[j].0 == name@;
                        assert(f.properties.entries()[j].0 == f.properties.entries()[i as int].0);
                    }
                }
                assert(listed.push((name@, property@)) =~= wanted.take(i + 1));
            }
            properties.store(name.clone(), property);
            i += 1;
        }
        assert(wanted.take(n as int) =~= wanted);
        required = copy_texts(&f.required);
    } else {
        assert(texts_of(required@) =~= Seq::empty());
    }
    Schema { kind: String::from_str("object"), properties, required }
}

/// The schema of a declared type for the served document, with the nested
/// schemas that it refers to: the object schema of each definition that
/// describes an object, each under its own name and none of them twice.
pub fn schema_from_schemars_full(_name: &str, root: &SourceRoot) -> (result: SchemaResult)
    ensures
        result@.schema == object_schema_of(root.schema.object),
        result@.nested == definitions_of(root.definitions.entries()),
        distinct_names(result@.schema.properties),
        distinct_names(result@.nested),
{
    let schema = object_schema(&root.schema.object);
    let mut nested: NameMap<Schema> = NameMap::new();
    let n = root.definitions.len();
    let ghost definitions = root.definitions.entries();
    let mut i: usize = 0;
    assert(nested@ =~= definitions_of(definitions.take(0)));
    while i < n
        invariant
            i <= n,
            n == definitions.len(),
            definitions == root.definitions.entries(),
            distinct_names(definitions),
            nested@ == definitions_of(definitions.take(i as int)),
        decreases n - i,
    {
        proof {
            assert(definitions.take(i + 1).drop_last() =~= definitions.take(i as int));
            lemma_nested_names(definitions.take(i as int), definitions[i as int].0);
            if has_name(nested@, definitions[i as int].0) {
                let j = choose|j: int|
                    0 <= j < definitions.take(i as int).len() && (#[trigger] definitions.take(
                        i as int,
                    )[j]).0 == definitions[i as int].0 && describes_object(
                        definitions.take(i as int)[j].1,
                    );
                assert(definitions[j].0 == definitions[i as int].0);
            }
        }
        if let SourceSchema::Object(o) = root.definitions.value_at(i) {
            if o.object.is_some() {
                nested.store(root.definitions.name_at(i).clone(), object_schema(&o.object));
            }
        }
        i += 1;
    }
    proof {
        assert(definitions.take(n as int) =~= definitions);
        lemma_nested_distinct(definitions);
    }
    SchemaResult { schema, nested }
}

/// The schema of a declared type for the served document.
pub fn schema_from_schemars(_name: &str, root: &SourceRoot) -> (schema: Schema)
    ensures
        schema@ == object_schema_of(root.schema.object),
        distinct_names(schema@.properties),
{
    let result = schema_from_schemars_full(_name, root);
    result.schema
}

} // verus!
