//! Type descriptors: the shape of a declared type, told apart from any
//! programming language.

use crate::names::{put, NameMap};
use crate::openapi::{component_path, Property, PropertyModel, Schema, SchemaModel};
use crate::text::{same_text, text_of};
use vstd::prelude::*;

verus! {

/// The kind of a primitive type.
#[derive(Clone, Copy, PartialEq, Eq, Structural, Debug)]
pub enum PrimitiveKind {
    String,
    Integer,
    Number,
    Boolean,
}

/// The shape of a declared type.
#[derive(Debug)]
pub enum TypeDescriptor {
    /// A primitive. A string may carry a format hint, such as `email`.
    Primitive(PrimitiveKind, Option<String>),
    /// A value that may be absent.
    Optional(Box<TypeDescriptor>),
    /// A sequence of values of one type.
    Sequence(Box<TypeDescriptor>),
    /// A map from strings to values of one type.
    StringMap(Box<TypeDescriptor>),
    /// A named object with its fields, in order.
    Object(String, Vec<FieldDescriptor>),
    /// The object of the given name, declared elsewhere.
    Reference(String),
}

/// A field of an object.
#[derive(Debug)]
pub struct FieldDescriptor {
    pub name: String,
    pub ty: TypeDescriptor,
    pub required: bool,
}

/// The name that the served document gives to a primitive kind.
pub open spec fn kind_text(kind: PrimitiveKind) -> Seq<char> {
    match kind {
        PrimitiveKind::String => "string"@,
        PrimitiveKind::Integer => "integer"@,
        PrimitiveKind::Number => "number"@,
        PrimitiveKind::Boolean => "boolean"@,
    }
}

/// The schema node that stands for a type wherever the type is used.
///
/// A primitive is a node of its kind; a string keeps its format hint. An
/// optional type is the node of its inner type, made nullable. A sequence is
/// an array that carries the node of its elements, a map an object that
/// carries the node of its values. An object, declared here or elsewhere, is
/// a reference to the component of its name.
pub open spec fn fragment(ty: TypeDescriptor) -> PropertyModel
    decreases ty,
{
    match ty {
        TypeDescriptor::Primitive(kind, format) => PropertyModel {
            format: if kind == PrimitiveKind::String {
                text_of(format)
            } else {
                None
            },
            ..PropertyModel::plain(kind_text(kind))
        },
        TypeDescriptor::Optional(inner) => PropertyModel { nullable: true, ..fragment(*inner) },
        TypeDescriptor::Sequence(inner) => PropertyModel {
            items: Some(Box::new(fragment(*inner))),
            ..PropertyModel::plain("array"@)
        },
        TypeDescriptor::StringMap(inner) => PropertyModel {
            additional_properties: Some(Box::new(fragment(*inner))),
            ..PropertyModel::plain("object"@)
        },
        TypeDescriptor::Object(name, _) => PropertyModel::reference(component_path(name@)),
        TypeDescriptor::Reference(name) => PropertyModel::reference(component_path(name@)),
    }
}

/// The node that stands for a type either refers to a named schema and
/// carries nothing else but its `nullable` flag, or is of a concrete kind; and
/// so does every node inside it.
pub proof fn lemma_fragment_well_formed(ty: TypeDescriptor)
    ensures
        fragment(ty).well_formed(),
    decreases ty,
{
    match ty {
        TypeDescriptor::Optional(inner) => {
            lemma_fragment_well_formed(*inner);
        },
        TypeDescriptor::Sequence(inner) => {
            lemma_fragment_well_formed(*inner);
        },
        TypeDescriptor::StringMap(inner) => {
            lemma_fragment_well_formed(*inner);
        },
        _ => {},
    }
}

/// The properties of an object: the node of each field stored under the
/// field's name, in the order of the fields.
pub open spec fn field_properties(fields: Seq<FieldDescriptor>) -> Seq<(Seq<char>, PropertyModel)>
    decreases fields.len(),
{
    if fields.len() == 0 {
        Seq::empty()
    } else {
        put(field_properties(fields.drop_last()), fields.last().name@, fragment(fields.last().ty))
    }
}

/// The names of the required fields, in the order of the fields.
pub open spec fn required_names(fields: Seq<FieldDescriptor>) -> Seq<Seq<char>>
    decreases fields.len(),
{
    if fields.len() == 0 {
        Seq::empty()
    } else if fields.last().required {
        required_names(fields.drop_last()).push(fields.last().name@)
    } else {
        required_names(fields.drop_last())
    }
}

/// The schema of an object with the given fields.
pub open spec fn object_schema(fields: Seq<FieldDescriptor>) -> SchemaModel {
    SchemaModel {
        kind: "object"@,
        properties: field_properties(fields),
        required: required_names(fields),
    }
}

/// The kind of the primitive type of the handler language that is named
/// `name`: the integer types are integers, the floating-point types numbers;
/// `None` where the name is that of no primitive type.
pub open spec fn primitive_kind(name: Seq<char>) -> Option<PrimitiveKind> {
    if name == "String"@ {
        Some(PrimitiveKind::String)
    } else if name == "bool"@ {
        Some(PrimitiveKind::Boolean)
    } else if name == "f32"@ || name == "f64"@ {
        Some(PrimitiveKind::Number)
    } else if name == "i8"@ || name == "i16"@ || name == "i32"@ || name == "i64"@ || name
        == "i128"@ || name == "u8"@ || name == "u16"@ || name == "u32"@ || name == "u64"@ || name
        == "u128"@ {
        Some(PrimitiveKind::Integer)
    } else {
        None
    }
}

/// The kind of the primitive type that is named `name`.
pub fn primitive_kind_of(name: &str) -> (kind: Option<PrimitiveKind>)
    ensures
        kind == primitive_kind(name@),
{
    if same_text(name, "String") {
        Some(PrimitiveKind::String)
    } else if same_text(name, "bool") {
        Some(PrimitiveKind::Boolean)
    } else if same_text(name, "f32") || same_text(name, "f64") {
        Some(PrimitiveKind::Number)
    } else if same_text(name, "i8") || same_text(name, "i16") || same_text(name, "i32")
        || same_text(name, "i64") || same_text(name, "i128") || same_text(name, "u8") || same_text(
        name,
        "u16",
    ) || same_text(name, "u32") || same_text(name, "u64") || same_text(name, "u128") {
        Some(PrimitiveKind::Integer)
    } else {
        None
    }
}

/// What a generic type of the handler language makes of its argument.
#[derive(Clone, Copy, PartialEq, Eq, Structural, Debug)]
pub enum Wrapper {
    /// A value that may be absent.
    Optional,
    /// A sequence of values.
    Sequence,
    /// A map from strings to values.
    StringMap,
}

/// What the generic type named `name` makes of its argument: `Option` an
/// optional value, `Vec` a sequence, `HashMap` and `BTreeMap` a map keyed by
/// strings; `None` for any other name.
pub open spec fn wrapper_named(name: Seq<char>) -> Option<Wrapper> {
    if name == "Option"@ {
        Some(Wrapper::Optional)
    } else if name == "Vec"@ {
        Some(Wrapper::Sequence)
    } else if name == "HashMap"@ || name == "BTreeMap"@ {
        Some(Wrapper::StringMap)
    } else {
        None
    }
}

/// What the generic type named `name` makes of its argument.
pub fn wrapper_of(name: &str) -> (wrapper: Option<Wrapper>)
    ensures
        wrapper == wrapper_named(name@),
{
    if same_text(name, "Option") {
        Some(Wrapper::Optional)
    } else if same_text(name, "Vec") {
        Some(Wrapper::Sequence)
    } else if same_text(name, "HashMap") || same_text(name, "BTreeMap") {
        Some(Wrapper::StringMap)
    } else {
        None
    }
}

/// The name that the served document gives to a primitive kind.
pub fn kind_name(kind: PrimitiveKind) -> (text: &'static str)
    ensures
        text@ == kind_text(kind),
{
    match kind {
        PrimitiveKind::String => "string",
        PrimitiveKind::Integer => "integer",
        PrimitiveKind::Number => "number",
        PrimitiveKind::Boolean => "boolean",
    }
}

/// The path under which the served document lists the object schema `name`.
pub fn component_ref(name: &str) -> (path: String)
    ensures
        path@ == component_path(name@),
{
    let mut path = String::from_str("#/components/schemas/");
    path.append(name);
    path
}

impl TypeDescriptor {
    /// The schema node that stands for this type wherever the type is used.
    pub fn to_fragment(&self) -> (node: Property)
        ensures
            node@ == fragment(*self),
        decreases self,
    {
        match self {
            TypeDescriptor::Primitive(kind, format) => {
                let mut node = Property::plain(kind_name(*kind));
                if let PrimitiveKind::String = kind {
                    if let Some(f) = format {
                        node.format = Some(f.clone());
                    }
                }
                node
            },
            TypeDescriptor::Optional(inner) => {
                let mut node = inner.to_fragment();
                node.nullable = true;
                node
            },
            TypeDescriptor::Sequence(inner) => {
                let mut node = Property::plain("array");
                node.items = Some(Box::new(inner.to_fragment()));
                node
            },
            TypeDescriptor::StringMap(inner) => {
                let mut node = Property::plain("object");
                node.additional_properties = Some(Box::new(inner.to_fragment()));
                node
            },
            TypeDescriptor::Object(name, _) => Property::reference(component_ref(name.as_str())),
            TypeDescriptor::Reference(name) => Property::reference(component_ref(name.as_str())),
        }
    }
}

/// The schema of an object with the given fields.
pub fn schema_of_fields(fields: &Vec<FieldDescriptor>) -> (schema: Schema)
    ensures
        schema@ == object_schema(fields@),
{
    let mut properties: NameMap<Property> = NameMap::new();
    let mut required: Vec<String> = Vec::new();
    let mut i: usize = 0;
    while i < fields.len()
        invariant
            i <= fields.len(),
            properties.models() == field_properties(fields@.take(i as int)),
            crate::text::texts_of(required@) == required_names(fields@.take(i as int)),
        decreases fields.len() - i,
    {
        let node = fields[i].ty.to_fragment();
        properties.store(fields[i].name.clone(), node);
        if fields[i].required {
            required.push(fields[i].name.clone());
        }
        assert(fields@.take(i + 1).drop_last() =~= fields@.take(i as int));
        i += 1;
    }
    assert(fields@.take(i as int) =~= fields@);
    Schema { kind: String::from_str("object"), properties, required }
}

} // verus!
