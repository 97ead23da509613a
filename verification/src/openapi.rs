//! The served API document: its parts, their mathematical models, and their
//! rendering as JSON.

use crate::json::{
    documents_of, insert_string, json_array, json_bool, json_object, json_of, json_signed,
    json_single, json_string, json_strings, json_unsigned, lemma_members_keys,
    lemma_members_of_distinct, lemma_members_step, members_from, members_insert, members_new,
    members_of, no_members, single, JsonModel,
};
use crate::names::{distinct_names, has_entry, NameMap};
pub use crate::source::{schema_from_schemars, schema_from_schemars_full};
use crate::text::{same_optional_text, same_texts, text_of, texts_of};
use vstd::prelude::*;

verus! {

/// One node of a schema: either a reference to a named object schema, or a
/// concrete kind with its constraints.
#[derive(Debug)]
pub struct Property {
    /// `object`, `array`, `string`, `integer`, `number` or `boolean`.
    pub kind: String,
    pub format: Option<String>,
    pub min_length: Option<usize>,
    pub max_length: Option<usize>,
    pub minimum: Option<i64>,
    pub maximum: Option<i64>,
    pub pattern: Option<String>,
    pub min_items: Option<usize>,
    /// The path of the named object schema that this node refers to.
    pub ref_path: Option<String>,
    /// The schema of the elements, for an array.
    pub items: Option<Box<Property>>,
    /// The schema of the values, for a map keyed by strings.
    pub additional_properties: Option<Box<Property>>,
    pub nullable: bool,
}

/// What a `Property` holds.
pub struct PropertyModel {
    pub kind: Seq<char>,
    pub format: Option<Seq<char>>,
    pub min_length: Option<usize>,
    pub max_length: Option<usize>,
    pub minimum: Option<i64>,
    pub maximum: Option<i64>,
    pub pattern: Option<Seq<char>>,
    pub min_items: Option<usize>,
    pub ref_path: Option<Seq<char>>,
    pub items: Option<Box<PropertyModel>>,
    pub additional_properties: Option<Box<PropertyModel>>,
    pub nullable: bool,
}

impl View for Property {
    type V = PropertyModel;

    open spec fn view(&self) -> PropertyModel
        decreases self,
    {
        PropertyModel {
            kind: self.kind@,
            format: text_of(self.format),
            min_length: self.min_length,
            max_length: self.max_length,
            minimum: self.minimum,
            maximum: self.maximum,
            pattern: text_of(self.pattern),
            min_items: self.min_items,
            ref_path: text_of(self.ref_path),
            items: match self.items {
                Some(inner) => Some(Box::new((*inner)@)),
                None => None,
            },
            additional_properties: match self.additional_properties {
                Some(inner) => Some(Box::new((*inner)@)),
                None => None,
            },
            nullable: self.nullable,
        }
    }
}

/// The path under which the served document lists the object schema `name`.
pub open spec fn component_path(name: Seq<char>) -> Seq<char> {
    "#/components/schemas/"@ + name
}

impl PropertyModel {
    /// A node of a concrete kind, without constraints.
    pub open spec fn plain(kind: Seq<char>) -> PropertyModel {
        PropertyModel {
            kind,
            format: None,
            min_length: None,
            max_length: None,
            minimum: None,
            maximum: None,
            pattern: None,
            min_items: None,
            ref_path: None,
            items: None,
            additional_properties: None,
            nullable: false,
        }
    }

    /// A reference to the object schema listed under `path`.
    pub open spec fn reference(path: Seq<char>) -> PropertyModel {
        PropertyModel { ref_path: Some(path), ..Self::plain("object"@) }
    }

    /// A node either refers to a named schema and carries nothing else but its
    /// `nullable` flag, or is of a concrete kind.
    pub open spec fn well_formed(self) -> bool
        decreases self,
    {
        &&& self.ref_path is Some ==> self == PropertyModel {
            nullable: self.nullable,
            ..Self::reference(self.ref_path->0)
        }
        &&& match self.items {
            Some(inner) => inner.well_formed(),
            None => true,
        }
        &&& match self.additional_properties {
            Some(inner) => inner.well_formed(),
            None => true,
        }
    }

    /// The members that describe a node of a concrete kind.
    pub open spec fn members(self) -> Map<Seq<char>, JsonModel>
        decreases self, 0int,
    {
        let m = no_members().insert("type"@, JsonModel::String(self.kind));
        let m = match self.format {
            Some(f) => m.insert("format"@, JsonModel::String(f)),
            None => m,
        };
        let m = match self.min_length {
            Some(n) => m.insert("minLength"@, JsonModel::Number(n as int)),
            None => m,
        };
        let m = match self.max_length {
            Some(n) => m.insert("maxLength"@, JsonModel::Number(n as int)),
            None => m,
        };
        let m = match self.minimum {
            Some(n) => m.insert("minimum"@, JsonModel::Number(n as int)),
            None => m,
        };
        let m = match self.maximum {
            Some(n) => m.insert("maximum"@, JsonModel::Number(n as int)),
            None => m,
        };
        let m = match self.pattern {
            Some(p) => m.insert("pattern"@, JsonModel::String(p)),
            None => m,
        };
        let m = match self.min_items {
            Some(n) => m.insert("minItems"@, JsonModel::Number(n as int)),
            None => m,
        };
        let m = match self.items {
            Some(inner) => m.insert("items"@, inner.json()),
            None => m,
        };
        match self.additional_properties {
            Some(inner) => m.insert("additionalProperties"@, inner.json()),
            None => m,
        }
    }

    /// The JSON form of a node. A nullable node is the union, under `anyOf`,
    /// of what it would be otherwise and of the type `null`.
    pub open spec fn json(self) -> JsonModel
        decreases self, 1int,
    {
        let body = match self.ref_path {
            Some(path) => single("$ref"@, JsonModel::String(path)),
            None => JsonModel::Object(self.members()),
        };
        if self.nullable {
            single(
                "anyOf"@,
                JsonModel::Array(seq![body, single("type"@, JsonModel::String("null"@))]),
            )
        } else {
            body
        }
    }
}

fn duplicate_text(text: &Option<String>) -> (copy: Option<String>)
    ensures
        text_of(copy) == text_of(*text),
{
    match text {
        Some(s) => Some(s.clone()),
        None => None,
    }
}

fn same_count(a: Option<usize>, b: Option<usize>) -> (same: bool)
    ensures
        same == (a == b),
{
    match (a, b) {
        (Some(x), Some(y)) => x == y,
        (None, None) => true,
        _ => false,
    }
}

fn same_bound(a: Option<i64>, b: Option<i64>) -> (same: bool)
    ensures
        same == (a == b),
{
    match (a, b) {
        (Some(x), Some(y)) => x == y,
        (None, None) => true,
        _ => false,
    }
}

impl Property {
    /// A node of the given concrete kind, without constraints.
    pub fn plain(kind: &str) -> (node: Property)
        ensures
            node@ == PropertyModel::plain(kind@),
    {
        Property {
            kind: String::from_str(kind),
            format: None,
            min_length: None,
            max_length: None,
            minimum: None,
            maximum: None,
            pattern: None,
            min_items: None,
            ref_path: None,
            items: None,
            additional_properties: None,
            nullable: false,
        }
    }

    /// A reference to the object schema listed under `path`.
    pub fn reference(path: String) -> (node: Property)
        ensures
            node@ == PropertyModel::reference(path@),
    {
        let mut node = Property::plain("object");
        node.ref_path = Some(path);
        node
    }

    /// A copy of this node.
    pub fn duplicate(&self) -> (copy: Property)
        ensures
            copy@ == self@,
        decreases self,
    {
        Property {
            kind: self.kind.clone(),
            format: duplicate_text(&self.format),
            min_length: self.min_length,
            max_length: self.max_length,
            minimum: self.minimum,
            maximum: self.maximum,
            pattern: duplicate_text(&self.pattern),
            min_items: self.min_items,
            ref_path: duplicate_text(&self.ref_path),
            items: match &self.items {
                Some(inner) => Some(Box::new(inner.duplicate())),
                None => None,
            },
            additional_properties: match &self.additional_properties {
                Some(inner) => Some(Box::new(inner.duplicate())),
                None => None,
            },
            nullable: self.nullable,
        }
    }

    /// Whether two nodes hold the same.
    pub fn same_as(&self, other: &Property) -> (same: bool)
        ensures
            same == (self@ == other@),
        decreases self,
    {
        let flat = self.kind == other.kind && same_optional_text(&self.format, &other.format)
            && same_count(self.min_length, other.min_length) && same_count(
            self.max_length,
            other.max_length,
        ) && same_bound(self.minimum, other.minimum) && same_bound(self.maximum, other.maximum)
            && same_optional_text(&self.pattern, &other.pattern) && same_count(
            self.min_items,
            other.min_items,
        ) && same_optional_text(&self.ref_path, &other.ref_path) && self.nullable
            == other.nullable;
        if !flat {
            return false;
        }
        let items = match (&self.items, &other.items) {
            (Some(a), Some(b)) => a.same_as(b),
            (None, None) => true,
            _ => false,
        };
        if !items {
            return false;
        }
        match (&self.additional_properties, &other.additional_properties) {
            (Some(a), Some(b)) => a.same_as(b),
            (None, None) => true,
            _ => false,
        }
    }

    /// The JSON form of this node.
    pub fn to_json_value(&self) -> (value: serde_json::Value)
        ensures
            json_of(value) == self@.json(),
        decreases self,
    {
        let body = match &self.ref_path {
            Some(path) => json_single("$ref", json_string(path.as_str())),
            None => {
                let mut members = members_new();
                insert_string(&mut members, "type", self.kind.as_str());
                if let Some(f) = &self.format {
                    insert_string(&mut members, "format", f.as_str());
                }
                if let Some(n) = self.min_length {
                    members_insert(&mut members, String::from_str("minLength"), json_unsigned(n as u64));
                }
                if let Some(n) = self.max_length {
                    members_insert(&mut members, String::from_str("maxLength"), json_unsigned(n as u64));
                }
                if let Some(n) = self.minimum {
                    members_insert(&mut members, String::from_str("minimum"), json_signed(n));
                }
                if let Some(n) = self.maximum {
                    members_insert(&mut members, String::from_str("maximum"), json_signed(n));
                }
                if let Some(p) = &self.pattern {
                    insert_string(&mut members, "pattern", p.as_str());
                }
                if let Some(n) = self.min_items {
                    members_insert(&mut members, String::from_str("minItems"), json_unsigned(n as u64));
                }
                if let Some(inner) = &self.items {
                    members_insert(&mut members, String::from_str("items"), inner.to_json_value());
                }
                if let Some(inner) = &self.additional_properties {
                    members_insert(
                        &mut members,
                        String::from_str("additionalProperties"),
                        inner.to_json_value(),
                    );
                }
                json_object(members)
            },
        };
        if self.nullable {
            let mut branches: Vec<serde_json::Value> = Vec::new();
            branches.push(body);
            branches.push(json_single("type", json_string("null")));
            assert(documents_of(branches@) =~= seq![
                json_of(body),
                single("type"@, JsonModel::String("null"@)),
            ]);
            json_single("anyOf", json_array(branches))
        } else {
            body
        }
    }
}

/// An object schema: its properties by name, and the names of those that a
/// value must have.
#[derive(Debug)]
pub struct Schema {
    /// Always `object`.
    pub kind: String,
    pub properties: NameMap<Property>,
    pub required: Vec<String>,
}

/// What a `Schema` holds.
pub struct SchemaModel {
    pub kind: Seq<char>,
    pub properties: Seq<(Seq<char>, PropertyModel)>,
    pub required: Seq<Seq<char>>,
}

impl View for Schema {
    type V = SchemaModel;

    open spec fn view(&self) -> SchemaModel {
        SchemaModel {
            kind: self.kind@,
            properties: self.properties.models(),
            required: texts_of(self.required@),
        }
    }
}

/// The JSON string of each text, in order.
pub open spec fn strings_json(texts: Seq<Seq<char>>) -> Seq<JsonModel> {
    texts.map_values(|t: Seq<char>| JsonModel::String(t))
}

/// Each property's name with the JSON form of its schema.
pub open spec fn properties_json(properties: Seq<(Seq<char>, PropertyModel)>) -> Seq<
    (Seq<char>, JsonModel),
> {
    properties.map_values(|e: (Seq<char>, PropertyModel)| (e.0, e.1.json()))
}

impl SchemaModel {
    /// The JSON form of an object schema. `required` is left out when no
    /// property is required.
    pub open spec fn json(self) -> JsonModel {
        let m = no_members().insert("type"@, JsonModel::String(self.kind)).insert(
            "properties"@,
            JsonModel::Object(members_from(properties_json(self.properties))),
        );
        JsonModel::Object(
            if self.required.len() > 0 {
                m.insert("required"@, JsonModel::Array(strings_json(self.required)))
            } else {
                m
            },
        )
    }
}

impl Schema {
    /// Whether two schemas hold the same: the same properties in the same
    /// order, and the same required names in the same order.
    pub fn same_as(&self, other: &Schema) -> (same: bool)
        ensures
            same == (self@ == other@),
    {
        if self.kind != other.kind {
            return false;
        }
        if !same_texts(&self.required, &other.required) {
            return false;
        }
        let n = self.properties.len();
        if n != other.properties.len() {
            assert(self@.properties.len() != other@.properties.len());
            return false;
        }
        let mut i: usize = 0;
        while i < n
            invariant
                i <= n,
                n == self.properties.entries().len(),
                n == other.properties.entries().len(),
                forall|k: int| 0 <= k < i ==> self@.properties[k] == other@.properties[k],
            decreases n - i,
        {
            let same_name = *self.properties.name_at(i) == *other.properties.name_at(i);
            if !same_name || !self.properties.value_at(i).same_as(other.properties.value_at(i)) {
                assert(self@.properties[i as int] != other@.properties[i as int]);
                return false;
            }
            i += 1;
        }
        assert(self@.properties =~= other@.properties);
        true
    }

    /// The JSON form of this schema.
    pub fn to_json_value(&self) -> (value: serde_json::Value)
        ensures
            json_of(value) == self@.json(),
    {
        let mut props = members_new();
        let n = self.properties.len();
        let ghost listed = properties_json(self@.properties);
        let mut i: usize = 0;
        while i < n
            invariant
                i <= n,
                n == self.properties.entries().len(),
                listed == properties_json(self@.properties),
                members_of(props) == members_from(listed.take(i as int)),
            decreases n - i,
        {
            let name = self.properties.name_at(i).clone();
            let value = self.properties.value_at(i).to_json_value();
            proof {
                lemma_members_step(listed, i as int);
            }
            members_insert(&mut props, name, value);
            i += 1;
        }
        assert(listed.take(n as int) =~= listed);
        let mut members = members_new();
        insert_string(&mut members, "type", self.kind.as_str());
        members_insert(&mut members, String::from_str("properties"), json_object(props));
        if self.required.len() > 0 {
            assert(self.required@.map_values(|s: String| JsonModel::String(s@)) =~= strings_json(
                self@.required,
            ));
            members_insert(&mut members, String::from_str("required"), json_strings(&self.required));
        }
        json_object(members)
    }
}

/// A schema together with the object schemas that it refers to, by name.
#[derive(Debug)]
pub struct SchemaResult {
    pub schema: Schema,
    pub nested: NameMap<Schema>,
}

/// Constraints to lay over one property of a schema. A constraint that is
/// `None` leaves the property as it is.
#[derive(Debug)]
pub struct PropertyPatch {
    pub min_length: Option<usize>,
    pub max_length: Option<usize>,
    pub minimum: Option<i64>,
    pub maximum: Option<i64>,
    pub pattern: Option<String>,
    pub min_items: Option<usize>,
    pub format: Option<String>,
}

/// The declared JSON type of a path or query parameter.
#[derive(Debug)]
pub struct SchemaObject {
    pub kind: String,
}

impl SchemaObject {
    /// A parameter schema of the JSON type `t`.
    pub fn new_type(t: &str) -> (schema: Self)
        ensures
            schema.kind@ == t@,
    {
        SchemaObject { kind: String::from_str(t) }
    }
}

/// A parameter that a route takes from the path or from the query.
#[derive(Debug)]
pub struct Parameter {
    pub name: String,
    /// `path` or `query`.
    pub location: String,
    pub required: bool,
    pub schema: SchemaObject,
}

/// What a `Parameter` holds.
pub struct ParameterModel {
    pub name: Seq<char>,
    pub location: Seq<char>,
    pub required: bool,
    pub kind: Seq<char>,
}

impl View for Parameter {
    type V = ParameterModel;

    open spec fn view(&self) -> ParameterModel {
        ParameterModel {
            name: self.name@,
            location: self.location@,
            required: self.required,
            kind: self.schema.kind@,
        }
    }
}

impl ParameterModel {
    /// The JSON form of a parameter.
    pub open spec fn json(self) -> JsonModel {
        JsonModel::Object(
            no_members().insert("name"@, JsonModel::String(self.name)).insert(
                "in"@,
                JsonModel::String(self.location),
            ).insert("required"@, JsonModel::Bool(self.required)).insert(
                "schema"@,
                single("type"@, JsonModel::String(self.kind)),
            ),
        )
    }
}

impl Parameter {
    /// The JSON form of this parameter.
    pub fn to_json_value(&self) -> (value: serde_json::Value)
        ensures
            json_of(value) == self@.json(),
    {
        let mut members = members_new();
        insert_string(&mut members, "name", self.name.as_str());
        insert_string(&mut members, "in", self.location.as_str());
        members_insert(&mut members, String::from_str("required"), json_bool(self.required));
        members_insert(
            &mut members,
            String::from_str("schema"),
            json_single("type", json_string(self.schema.kind.as_str())),
        );
        json_object(members)
    }
}

/// The body that a route expects.
#[derive(Debug)]
pub struct RequestBody {
    pub required: bool,
    pub content_type: String,
    /// The path of the object schema of the body.
    pub schema_ref: String,
}

/// What a `RequestBody` holds.
pub struct RequestBodyModel {
    pub required: bool,
    pub content_type: Seq<char>,
    pub schema_ref: Seq<char>,
}

impl View for RequestBody {
    type V = RequestBodyModel;

    open spec fn view(&self) -> RequestBodyModel {
        RequestBodyModel {
            required: self.required,
            content_type: self.content_type@,
            schema_ref: self.schema_ref@,
        }
    }
}

impl RequestBodyModel {
    /// The JSON form of a request body.
    pub open spec fn json(self) -> JsonModel {
        JsonModel::Object(
            no_members().insert("required"@, JsonModel::Bool(self.required)).insert(
                "content"@,
                single(
                    self.content_type,
                    single("schema"@, single("$ref"@, JsonModel::String(self.schema_ref))),
                ),
            ),
        )
    }
}

impl RequestBody {
    /// The JSON form of this request body.
    pub fn to_json_value(&self) -> (value: serde_json::Value)
        ensures
            json_of(value) == self@.json(),
    {
        let schema = json_single("schema", json_single("$ref", json_string(self.schema_ref.as_str())));
        let mut members = members_new();
        members_insert(&mut members, String::from_str("required"), json_bool(self.required));
        members_insert(
            &mut members,
            String::from_str("content"),
            json_single(self.content_type.as_str(), schema),
        );
        json_object(members)
    }
}

/// One response that a route may give.
#[derive(Debug)]
pub struct ResponseDef {
    pub description: String,
    /// The schema of the JSON body, where the response has one.
    pub schema: Option<Property>,
}

/// What a `ResponseDef` holds.
pub struct ResponseModel {
    pub description: Seq<char>,
    pub schema: Option<PropertyModel>,
}

impl View for ResponseDef {
    type V = ResponseModel;

    open spec fn view(&self) -> ResponseModel {
        ResponseModel {
            description: self.description@,
            schema: match self.schema {
                Some(p) => Some(p@),
                None => None,
            },
        }
    }
}

impl ResponseModel {
    /// The JSON form of a response.
    pub open spec fn json(self) -> JsonModel {
        let m = no_members().insert("description"@, JsonModel::String(self.description));
        JsonModel::Object(
            match self.schema {
                Some(p) => m.insert(
                    "content"@,
                    single("application/json"@, single("schema"@, p.json())),
                ),
                None => m,
            },
        )
    }
}

impl ResponseDef {
    /// The JSON form of this response.
    pub fn to_json_value(&self) -> (value: serde_json::Value)
        ensures
            json_of(value) == self@.json(),
    {
        let mut members = members_new();
        insert_string(&mut members, "description", self.description.as_str());
        if let Some(p) = &self.schema {
            members_insert(
                &mut members,
                String::from_str("content"),
                json_single("application/json", json_single("schema", p.to_json_value())),
            );
        }
        json_object(members)
    }
}

/// One operation: a method on a path.
#[derive(Debug)]
pub struct Operation {
    pub summary: Option<String>,
    pub description: Option<String>,
    pub operation_id: Option<String>,
    pub tags: Vec<String>,
    pub parameters: Vec<Parameter>,
    pub request_body: Option<RequestBody>,
    /// The responses, by status code.
    pub responses: NameMap<ResponseDef>,
    /// The names of the security schemes that the operation requires.
    pub security: Vec<String>,
}

/// What an `Operation` holds.
pub struct OperationModel {
    pub summary: Option<Seq<char>>,
    pub description: Option<Seq<char>>,
    pub operation_id: Option<Seq<char>>,
    pub tags: Seq<Seq<char>>,
    pub parameters: Seq<ParameterModel>,
    pub request_body: Option<RequestBodyModel>,
    pub responses: Seq<(Seq<char>, ResponseModel)>,
    pub security: Seq<Seq<char>>,
}

/// The model of each parameter, in order.
pub open spec fn parameters_of(parameters: Seq<Parameter>) -> Seq<ParameterModel> {
    parameters.map_values(|p: Parameter| p@)
}

impl View for Operation {
    type V = OperationModel;

    open spec fn view(&self) -> OperationModel {
        OperationModel {
            summary: text_of(self.summary),
            description: text_of(self.description),
            operation_id: text_of(self.operation_id),
            tags: texts_of(self.tags@),
            parameters: parameters_of(self.parameters@),
            request_body: match self.request_body {
                Some(b) => Some(b@),
                None => None,
            },
            responses: self.responses.models(),
            security: texts_of(self.security@),
        }
    }
}

/// The JSON form of each parameter, in order.
pub open spec fn parameters_json(parameters: Seq<ParameterModel>) -> Seq<JsonModel> {
    parameters.map_values(|p: ParameterModel| p.json())
}

/// Each status code with the JSON form of its response.
pub open spec fn responses_json(responses: Seq<(Seq<char>, ResponseModel)>) -> Seq<
    (Seq<char>, JsonModel),
> {
    responses.map_values(|e: (Seq<char>, ResponseModel)| (e.0, e.1.json()))
}

/// One requirement object per scheme: the scheme's name with an empty list
/// of scopes.
pub open spec fn security_json(schemes: Seq<Seq<char>>) -> Seq<JsonModel> {
    schemes.map_values(|name: Seq<char>| single(name, JsonModel::Array(Seq::empty())))
}

impl OperationModel {
    /// The JSON form of an operation. Only `responses` is always there: the
    /// optional texts are left out when absent, the lists when empty.
    pub open spec fn json(self) -> JsonModel {
        let m = no_members();
        let m = match self.summary {
            Some(t) => m.insert("summary"@, JsonModel::String(t)),
            None => m,
        };
        let m = match self.description {
            Some(t) => m.insert("description"@, JsonModel::String(t)),
            None => m,
        };
        let m = match self.operation_id {
            Some(t) => m.insert("operationId"@, JsonModel::String(t)),
            None => m,
        };
        let m = if self.tags.len() > 0 {
            m.insert("tags"@, JsonModel::Array(strings_json(self.tags)))
        } else {
            m
        };
        let m = if self.parameters.len() > 0 {
            m.insert("parameters"@, JsonModel::Array(parameters_json(self.parameters)))
        } else {
            m
        };
        let m = match self.request_body {
            Some(b) => m.insert("requestBody"@, b.json()),
            None => m,
        };
        let m = m.insert(
            "responses"@,
            JsonModel::Object(members_from(responses_json(self.responses))),
        );
        JsonModel::Object(
            if self.security.len() > 0 {
                m.insert("security"@, JsonModel::Array(security_json(self.security)))
            } else {
                m
            },
        )
    }
}

impl Operation {
    fn parameters_value(&self) -> (value: serde_json::Value)
        ensures
            json_of(value) == JsonModel::Array(parameters_json(self@.parameters)),
    {
        let mut values: Vec<serde_json::Value> = Vec::new();
        let mut i: usize = 0;
        while i < self.parameters.len()
            invariant
                i <= self.parameters.len(),
                values.len() == i,
                forall|k: int|
                    0 <= k < i ==> json_of(#[trigger] values@[k]) == self.parameters@[k]@.json(),
            decreases self.parameters.len() - i,
        {
            values.push(self.parameters[i].to_json_value());
            i += 1;
        }
        assert(documents_of(values@) =~= parameters_json(self@.parameters));
        json_array(values)
    }

    fn responses_value(&self) -> (value: serde_json::Value)
        ensures
            json_of(value) == JsonModel::Object(members_from(responses_json(self@.responses))),
    {
        let mut members = members_new();
        let n = self.responses.len();
        let ghost listed = responses_json(self@.responses);
        let mut i: usize = 0;
        while i < n
            invariant
                i <= n,
                n == self.responses.entries().len(),
                listed == responses_json(self@.responses),
                members_of(members) == members_from(listed.take(i as int)),
            decreases n - i,
        {
            let code = self.responses.name_at(i).clone();
            let value = self.responses.value_at(i).to_json_value();
            proof {
                lemma_members_step(listed, i as int);
            }
            members_insert(&mut members, code, value);
            i += 1;
        }
        assert(listed.take(n as int) =~= listed);
        json_object(members)
    }

    fn security_value(&self) -> (value: serde_json::Value)
        ensures
            json_of(value) == JsonModel::Array(security_json(self@.security)),
    {
        let mut values: Vec<serde_json::Value> = Vec::new();
        let mut i: usize = 0;
        while i < self.security.len()
            invariant
                i <= self.security.len(),
                values.len() == i,
                forall|k: int|
                    0 <= k < i ==> json_of(#[trigger] values@[k]) == single(
                        self.security@[k]@,
                        JsonModel::Array(Seq::empty()),
                    ),
            decreases self.security.len() - i,
        {
            let scopes: Vec<serde_json::Value> = Vec::new();
            assert(documents_of(scopes@) =~= Seq::<JsonModel>::empty());
            values.push(json_single(self.security[i].as_str(), json_array(scopes)));
            i += 1;
        }
        assert(documents_of(values@) =~= security_json(self@.security));
        json_array(values)
    }

    /// The JSON form of this operation.
    pub fn to_json_value(&self) -> (value: serde_json::Value)
        ensures
            json_of(value) == self@.json(),
    {
        let mut members = members_new();
        if let Some(t) = &self.summary {
            insert_string(&mut members, "summary", t.as_str());
        }
        if let Some(t) = &self.description {
            insert_string(&mut members, "description", t.as_str());
        }
        if let Some(t) = &self.operation_id {
            insert_string(&mut members, "operationId", t.as_str());
        }
        if self.tags.len() > 0 {
            assert(self.tags@.map_values(|s: String| JsonModel::String(s@)) =~= strings_json(
                self@.tags,
            ));
            members_insert(&mut members, String::from_str("tags"), json_strings(&self.tags));
        }
        if self.parameters.len() > 0 {
            members_insert(&mut members, String::from_str("parameters"), self.parameters_value());
        }
        if let Some(b) = &self.request_body {
            members_insert(&mut members, String::from_str("requestBody"), b.to_json_value());
        }
        members_insert(&mut members, String::from_str("responses"), self.responses_value());
        if self.security.len() > 0 {
            members_insert(&mut members, String::from_str("security"), self.security_value());
        }
        json_object(members)
    }
}

/// The title and version of the API.
#[derive(Debug)]
pub struct Info {
    pub title: String,
    pub version: String,
}

/// A way in which callers prove who they are.
#[derive(Debug)]
pub struct SecurityScheme {
    /// `http` or `apiKey`.
    pub kind: String,
    /// The HTTP authorization scheme, such as `bearer`.
    pub scheme: String,
}

/// What a `SecurityScheme` holds.
pub struct SecuritySchemeModel {
    pub kind: Seq<char>,
    pub scheme: Seq<char>,
}

impl View for SecurityScheme {
    type V = SecuritySchemeModel;

    open spec fn view(&self) -> SecuritySchemeModel {
        SecuritySchemeModel { kind: self.kind@, scheme: self.scheme@ }
    }
}

impl SecuritySchemeModel {
    /// The JSON form of a security scheme.
    pub open spec fn json(self) -> JsonModel {
        JsonModel::Object(
            no_members().insert("type"@, JsonModel::String(self.kind)).insert(
                "scheme"@,
                JsonModel::String(self.scheme),
            ),
        )
    }
}

impl SecurityScheme {
    /// The JSON form of this security scheme.
    pub fn to_json_value(&self) -> (value: serde_json::Value)
        ensures
            json_of(value) == self@.json(),
    {
        let mut members = members_new();
        insert_string(&mut members, "type", self.kind.as_str());
        insert_string(&mut members, "scheme", self.scheme.as_str());
        json_object(members)
    }
}

/// The served document.
#[derive(Debug)]
pub struct OpenApiSpec {
    pub openapi: String,
    pub info: Info,
    /// The operations, by path and then by method in lower case.
    pub paths: NameMap<NameMap<Operation>>,
    /// The object schemas, by name.
    pub schemas: NameMap<Schema>,
    /// The security schemes, by name.
    pub security_schemes: NameMap<SecurityScheme>,
}

/// What an `OpenApiSpec` holds.
pub struct OpenApiModel {
    pub openapi: Seq<char>,
    pub title: Seq<char>,
    pub version: Seq<char>,
    pub paths: Seq<(Seq<char>, Seq<(Seq<char>, OperationModel)>)>,
    pub schemas: Seq<(Seq<char>, SchemaModel)>,
    pub security_schemes: Seq<(Seq<char>, SecuritySchemeModel)>,
}

impl View for OpenApiSpec {
    type V = OpenApiModel;

    open spec fn view(&self) -> OpenApiModel {
        OpenApiModel {
            openapi: self.openapi@,
            title: self.info.title@,
            version: self.info.version@,
            paths: self.paths@,
            schemas: self.schemas@,
            security_schemes: self.security_schemes@,
        }
    }
}

/// Each method with the JSON form of its operation.
pub open spec fn methods_json(methods: Seq<(Seq<char>, OperationModel)>) -> Seq<
    (Seq<char>, JsonModel),
> {
    methods.map_values(|e: (Seq<char>, OperationModel)| (e.0, e.1.json()))
}

/// Each path with the JSON object of its methods.
pub open spec fn paths_json(paths: Seq<(Seq<char>, Seq<(Seq<char>, OperationModel)>)>) -> Seq<
    (Seq<char>, JsonModel),
> {
    paths.map_values(
        |e: (Seq<char>, Seq<(Seq<char>, OperationModel)>)|
            (e.0, JsonModel::Object(members_from(methods_json(e.1)))),
    )
}

/// Each schema's name with its JSON form.
pub open spec fn schemas_json(schemas: Seq<(Seq<char>, SchemaModel)>) -> Seq<
    (Seq<char>, JsonModel),
> {
    schemas.map_values(|e: (Seq<char>, SchemaModel)| (e.0, e.1.json()))
}

/// Two tables that list the same schemas under the same names, each name
/// once, make the same members, in whatever order each table lists them.
pub proof fn lemma_same_schemas(
    first: Seq<(Seq<char>, SchemaModel)>,
    second: Seq<(Seq<char>, SchemaModel)>,
)
    requires
        distinct_names(first),
        distinct_names(second),
        forall|name: Seq<char>, schema: SchemaModel| #[trigger]
            has_entry(first, name, schema) <==> has_entry(second, name, schema),
    ensures
        members_from(schemas_json(first)) == members_from(schemas_json(second)),
{
    let a = schemas_json(first);
    let b = schemas_json(second);
    let ma = members_from(a);
    let mb = members_from(b);
    assert(distinct_names(a)) by {
        assert forall|i: int, j: int|
            0 <= i < a.len() && 0 <= j < a.len() && i != j implies #[trigger] a[i].0
            != #[trigger] a[j].0 by {
            assert(first[i].0 != first[j].0);
        }
    }
    assert(distinct_names(b)) by {
        assert forall|i: int, j: int|
            0 <= i < b.len() && 0 <= j < b.len() && i != j implies #[trigger] b[i].0
            != #[trigger] b[j].0 by {
            assert(second[i].0 != second[j].0);
        }
    }
    assert forall|k: Seq<char>| #[trigger] ma.dom().contains(k) implies mb.dom().contains(k)
        && ma[k] == mb[k] by {
        lemma_members_keys(a, k);
        let i = choose|i: int| 0 <= i < a.len() && #[trigger] a[i].0 == k;
        lemma_members_of_distinct(a, i);
        assert(first[i] == (k, first[i].1));
        assert(has_entry(first, k, first[i].1));
        assert(has_entry(second, k, first[i].1));
        let j = choose|j: int| 0 <= j < second.len() && #[trigger] second[j] == (k, first[i].1);
        assert(b[j].0 == k);
        lemma_members_of_distinct(b, j);
    }
    assert forall|k: Seq<char>| #[trigger] mb.dom().contains(k) implies ma.dom().contains(k) by {
        lemma_members_keys(b, k);
        let j = choose|j: int| 0 <= j < b.len() && #[trigger] b[j].0 == k;
        assert(second[j] == (k, second[j].1));
        assert(has_entry(second, k, second[j].1));
        assert(has_entry(first, k, second[j].1));
        let i = choose|i: int| 0 <= i < first.len() && #[trigger] first[i] == (k, second[j].1);
        assert(a[i].0 == k);
        lemma_members_of_distinct(a, i);
    }
    assert(ma =~= mb);
}

/// Each security scheme's name with its JSON form.
pub open spec fn security_schemes_json(schemes: Seq<(Seq<char>, SecuritySchemeModel)>) -> Seq<
    (Seq<char>, JsonModel),
> {
    schemes.map_values(|e: (Seq<char>, SecuritySchemeModel)| (e.0, e.1.json()))
}

impl OpenApiModel {
    /// The member `components`: the schemas, and the security schemes where
    /// there are any.
    pub open spec fn components_json(self) -> JsonModel {
        let m = no_members().insert(
            "schemas"@,
            JsonModel::Object(members_from(schemas_json(self.schemas))),
        );
        JsonModel::Object(
            if self.security_schemes.len() > 0 {
                m.insert(
                    "securitySchemes"@,
                    JsonModel::Object(members_from(security_schemes_json(self.security_schemes))),
                )
            } else {
                m
            },
        )
    }

    /// The JSON form of the served document.
    pub open spec fn json(self) -> JsonModel {
        JsonModel::Object(
            no_members().insert("openapi"@, JsonModel::String(self.openapi)).insert(
                "info"@,
                JsonModel::Object(
                    no_members().insert("title"@, JsonModel::String(self.title)).insert(
                        "version"@,
                        JsonModel::String(self.version),
                    ),
                ),
            ).insert("paths"@, JsonModel::Object(members_from(paths_json(self.paths)))).insert(
                "components"@,
                self.components_json(),
            ),
        )
    }
}

fn methods_value(methods: &NameMap<Operation>) -> (value: serde_json::Value)
    ensures
        json_of(value) == JsonModel::Object(members_from(methods_json(methods@))),
{
    let mut members = members_new();
    let n = methods.len();
    let ghost listed = methods_json(methods@);
    let mut i: usize = 0;
    while i < n
        invariant
            i <= n,
            n == methods.entries().len(),
            listed == methods_json(methods@),
            members_of(members) == members_from(listed.take(i as int)),
        decreases n - i,
    {
        let method = methods.name_at(i).clone();
        let value = methods.value_at(i).to_json_value();
        proof {
            lemma_members_step(listed, i as int);
        }
        members_insert(&mut members, method, value);
        i += 1;
    }
    assert(listed.take(n as int) =~= listed);
    json_object(members)
}

impl OpenApiSpec {
    fn paths_value(&self) -> (value: serde_json::Value)
        ensures
            json_of(value) == JsonModel::Object(members_from(paths_json(self@.paths))),
    {
        let mut members = members_new();
        let n = self.paths.len();
        let ghost listed = paths_json(self@.paths);
        let mut i: usize = 0;
        while i < n
            invariant
                i <= n,
                n == self.paths.entries().len(),
                listed == paths_json(self@.paths),
                members_of(members) == members_from(listed.take(i as int)),
            decreases n - i,
        {
            let path = self.paths.name_at(i).clone();
            let value = methods_value(self.paths.value_at(i));
            proof {
                lemma_members_step(listed, i as int);
            }
            members_insert(&mut members, path, value);
            i += 1;
        }
        assert(listed.take(n as int) =~= listed);
        json_object(members)
    }

    fn schemas_value(&self) -> (value: serde_json::Value)
        ensures
            json_of(value) == JsonModel::Object(members_from(schemas_json(self@.schemas))),
    {
        let mut members = members_new();
        let n = self.schemas.len();
        let ghost listed = schemas_json(self@.schemas);
        let mut i: usize = 0;
        while i < n
            invariant
                i <= n,
                n == self.schemas.entries().len(),
                listed == schemas_json(self@.schemas),
                members_of(members) == members_from(listed.take(i as int)),
            decreases n - i,
        {
            let name = self.schemas.name_at(i).clone();
            let value = self.schemas.value_at(i).to_json_value();
            proof {
                lemma_members_step(listed, i as int);
            }
            members_insert(&mut members, name, value);
            i += 1;
        }
        assert(listed.take(n as int) =~= listed);
        json_object(members)
    }

    fn security_schemes_value(&self) -> (value: serde_json::Value)
        ensures
            json_of(value) == JsonModel::Object(
                members_from(security_schemes_json(self@.security_schemes)),
            ),
    {
        let mut members = members_new();
        let n = self.security_schemes.len();
        let ghost listed = security_schemes_json(self@.security_schemes);
        let mut i: usize = 0;
        while i < n
            invariant
                i <= n,
                n == self.security_schemes.entries().len(),
                listed == security_schemes_json(self@.security_schemes),
                members_of(members) == members_from(listed.take(i as int)),
            decreases n - i,
        {
            let name = self.security_schemes.name_at(i).clone();
            let value = self.security_schemes.value_at(i).to_json_value();
            proof {
                lemma_members_step(listed, i as int);
            }
            members_insert(&mut members, name, value);
            i += 1;
        }
        assert(listed.take(n as int) =~= listed);
        json_object(members)
    }

    /// The served document as JSON.
    pub fn to_json(&self) -> (value: serde_json::Value)
        ensures
            json_of(value) == self@.json(),
    {
        let mut info = members_new();
        insert_string(&mut info, "title", self.info.title.as_str());
        insert_string(&mut info, "version", self.info.version.as_str());
        let mut components = members_new();
        members_insert(&mut components, String::from_str("schemas"), self.schemas_value());
        if self.security_schemes.len() > 0 {
            members_insert(
                &mut components,
                String::from_str("securitySchemes"),
                self.security_schemes_value(),
            );
        }
        let mut members = members_new();
        insert_string(&mut members, "openapi", self.openapi.as_str());
        members_insert(&mut members, String::from_str("info"), json_object(info));
        members_insert(&mut members, String::from_str("paths"), self.paths_value());
        members_insert(&mut members, String::from_str("components"), json_object(components));
        json_object(members)
    }
}

} // verus!
