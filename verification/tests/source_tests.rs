use hayai::openapi::{schema_from_schemars, schema_from_schemars_full};
use hayai::names::NameMap;
use hayai::source::{
    format_instance_type, property_from_schemars_schema, InstanceType, InstanceTypes, SourceArray,
    SourceFields, SourceObject, SourceRoot, SourceSchema,
};

fn blank() -> SourceObject {
    SourceObject { instance_type: None, any_of: None, array: None, object: None, reference: None }
}

fn of_type(ty: InstanceType) -> SourceSchema {
    SourceSchema::Object(SourceObject { instance_type: Some(InstanceTypes::Single(ty)), ..blank() })
}

fn pointing_at(path: &str) -> SourceSchema {
    SourceSchema::Object(SourceObject { reference: Some(path.to_string()), ..blank() })
}

fn table(entries: Vec<(&str, SourceSchema)>) -> NameMap<SourceSchema> {
    let mut table = NameMap::new();
    for (name, schema) in entries {
        table.insert(name.to_string(), schema);
    }
    table
}

#[test]
fn instance_types_have_their_names() {
    assert_eq!(format_instance_type(&InstanceType::String), "string");
    assert_eq!(format_instance_type(&InstanceType::Integer), "integer");
    assert_eq!(format_instance_type(&InstanceType::Number), "number");
    assert_eq!(format_instance_type(&InstanceType::Boolean), "boolean");
    assert_eq!(format_instance_type(&InstanceType::Array), "array");
    assert_eq!(format_instance_type(&InstanceType::Object), "object");
    assert_eq!(format_instance_type(&InstanceType::Null), "null");
}

#[test]
fn reference_is_moved_under_components() {
    let p = property_from_schemars_schema(&pointing_at("#/definitions/Address"));
    assert_eq!(p.kind, "object");
    assert_eq!(p.ref_path.as_deref(), Some("#/components/schemas/Address"));
    assert!(!p.nullable);
    // The prefix is taken away once: a name may itself begin with it.
    let p = property_from_schemars_schema(&pointing_at("#/definitions/#/definitions/X"));
    assert_eq!(p.ref_path.as_deref(), Some("#/components/schemas/#/definitions/X"));
    // A reference without the prefix is kept whole.
    let p = property_from_schemars_schema(&pointing_at("Other"));
    assert_eq!(p.ref_path.as_deref(), Some("#/components/schemas/Other"));
}

#[test]
fn any_of_with_null_is_nullable() {
    let schema = SourceSchema::Object(SourceObject {
        any_of: Some(vec![of_type(InstanceType::Null), pointing_at("#/definitions/Address")]),
        ..blank()
    });
    let p = property_from_schemars_schema(&schema);
    assert!(p.nullable);
    assert_eq!(p.ref_path.as_deref(), Some("#/components/schemas/Address"));
}

#[test]
fn any_of_without_value_branch_falls_back_to_the_type() {
    let schema = SourceSchema::Object(SourceObject {
        any_of: Some(vec![of_type(InstanceType::Null), SourceSchema::Bool(true)]),
        instance_type: Some(InstanceTypes::Single(InstanceType::Integer)),
        ..blank()
    });
    let p = property_from_schemars_schema(&schema);
    assert!(!p.nullable);
    assert_eq!(p.kind, "integer");
}

#[test]
fn type_list_with_null_is_nullable() {
    let schema = SourceSchema::Object(SourceObject {
        instance_type: Some(InstanceTypes::Several(vec![InstanceType::Null, InstanceType::String])),
        ..blank()
    });
    let p = property_from_schemars_schema(&schema);
    assert!(p.nullable);
    assert_eq!(p.kind, "string");
    let only_null = SourceSchema::Object(SourceObject {
        instance_type: Some(InstanceTypes::Several(vec![InstanceType::Null])),
        ..blank()
    });
    let p = property_from_schemars_schema(&only_null);
    assert!(p.nullable);
    assert_eq!(p.kind, "string");
    let no_null = SourceSchema::Object(SourceObject {
        instance_type: Some(InstanceTypes::Several(vec![InstanceType::Integer, InstanceType::String])),
        ..blank()
    });
    let p = property_from_schemars_schema(&no_null);
    assert!(!p.nullable);
    assert_eq!(p.kind, "integer");
}

#[test]
fn array_carries_its_items() {
    let schema = SourceSchema::Object(SourceObject {
        instance_type: Some(InstanceTypes::Single(InstanceType::Array)),
        array: Some(SourceArray { item: Some(Box::new(of_type(InstanceType::String))) }),
        ..blank()
    });
    let p = property_from_schemars_schema(&schema);
    assert_eq!(p.kind, "array");
    assert_eq!(p.items.as_ref().unwrap().kind, "string");
    let bare = SourceSchema::Object(SourceObject {
        instance_type: Some(InstanceTypes::Single(InstanceType::Array)),
        ..blank()
    });
    assert!(property_from_schemars_schema(&bare).items.is_none());
}

#[test]
fn map_carries_its_values() {
    let schema = SourceSchema::Object(SourceObject {
        instance_type: Some(InstanceTypes::Single(InstanceType::Object)),
        object: Some(SourceFields {
            properties: NameMap::new(),
            required: vec![],
            additional_properties: Some(Box::new(of_type(InstanceType::Integer))),
        }),
        ..blank()
    });
    let p = property_from_schemars_schema(&schema);
    assert_eq!(p.kind, "object");
    assert_eq!(p.additional_properties.as_ref().unwrap().kind, "integer");
}

#[test]
fn schema_without_type_is_a_string() {
    assert_eq!(property_from_schemars_schema(&SourceSchema::Object(blank())).kind, "string");
    assert_eq!(property_from_schemars_schema(&SourceSchema::Bool(true)).kind, "string");
}

fn user_root() -> SourceRoot {
    let address = SourceObject {
        instance_type: Some(InstanceTypes::Single(InstanceType::Object)),
        object: Some(SourceFields {
            properties: table(vec![
                ("city", of_type(InstanceType::String)),
                ("country", of_type(InstanceType::String)),
            ]),
            required: vec!["city".to_string(), "country".to_string()],
            additional_properties: None,
        }),
        ..blank()
    };
    SourceRoot {
        schema: SourceObject {
            instance_type: Some(InstanceTypes::Single(InstanceType::Object)),
            object: Some(SourceFields {
                properties: table(vec![
                    ("address", pointing_at("#/definitions/Address")),
                    ("name", of_type(InstanceType::String)),
                ]),
                required: vec!["address".to_string(), "name".to_string()],
                additional_properties: None,
            }),
            ..blank()
        },
        definitions: table(vec![
            ("Address", SourceSchema::Object(address)),
            ("Status", of_type(InstanceType::String)),
        ]),
    }
}

#[test]
fn root_and_definitions_are_converted() {
    let result = schema_from_schemars_full("User", &user_root());
    assert_eq!(result.schema.kind, "object");
    assert_eq!(result.schema.properties.len(), 2);
    assert_eq!(
        result.schema.properties.get("address").unwrap().ref_path.as_deref(),
        Some("#/components/schemas/Address")
    );
    assert_eq!(result.schema.required, vec!["address".to_string(), "name".to_string()]);
    // Only the definitions that describe objects become nested schemas.
    assert_eq!(result.nested.len(), 1);
    let address = result.nested.get("Address").unwrap();
    assert!(address.properties.contains_key("city"));
    assert!(address.properties.contains_key("country"));
    assert!(!result.nested.contains_key("Status"));
}

#[test]
fn root_alone_is_converted() {
    let schema = schema_from_schemars("User", &user_root());
    assert_eq!(schema.properties.get("name").unwrap().kind, "string");
    let empty = SourceRoot { schema: blank(), definitions: NameMap::new() };
    let schema = schema_from_schemars("Nothing", &empty);
    assert_eq!(schema.kind, "object");
    assert_eq!(schema.properties.len(), 0);
    assert!(schema.required.is_empty());
}

#[test]
fn optional_array_keeps_its_items() {
    // An optional sequence of strings, written as the type list [array, null].
    let schema = SourceSchema::Object(SourceObject {
        instance_type: Some(InstanceTypes::Several(vec![InstanceType::Array, InstanceType::Null])),
        array: Some(SourceArray { item: Some(Box::new(of_type(InstanceType::String))) }),
        ..blank()
    });
    let p = property_from_schemars_schema(&schema);
    assert!(p.nullable);
    assert_eq!(p.kind, "array");
    assert_eq!(p.items.as_ref().unwrap().kind, "string");
    let json = p.to_json_value();
    assert_eq!(json["anyOf"][0]["type"], "array");
    assert_eq!(json["anyOf"][0]["items"]["type"], "string");
    assert_eq!(json["anyOf"][1]["type"], "null");
}

#[test]
fn optional_map_keeps_its_values() {
    let schema = SourceSchema::Object(SourceObject {
        instance_type: Some(InstanceTypes::Several(vec![InstanceType::Null, InstanceType::Object])),
        object: Some(SourceFields {
            properties: NameMap::new(),
            required: vec![],
            additional_properties: Some(Box::new(pointing_at("#/definitions/Company"))),
        }),
        ..blank()
    });
    let p = property_from_schemars_schema(&schema);
    assert!(p.nullable);
    assert_eq!(p.kind, "object");
    assert_eq!(
        p.additional_properties.as_ref().unwrap().ref_path.as_deref(),
        Some("#/components/schemas/Company")
    );
}

fn object_with(fields: Vec<(&str, SourceSchema)>) -> SourceSchema {
    let required = fields.iter().map(|(name, _)| name.to_string()).collect();
    SourceSchema::Object(SourceObject {
        instance_type: Some(InstanceTypes::Single(InstanceType::Object)),
        object: Some(SourceFields {
            properties: table(fields),
            required,
            additional_properties: None,
        }),
        ..blank()
    })
}

#[test]
fn definitions_in_a_cycle_are_each_listed_once() {
    // A has a field that refers to B, and B one that refers to A.
    let root = SourceRoot {
        schema: SourceObject {
            object: Some(SourceFields {
                properties: table(vec![("first", pointing_at("#/definitions/A"))]),
                required: vec![],
                additional_properties: None,
            }),
            ..blank()
        },
        definitions: table(vec![
            ("A", object_with(vec![("b", pointing_at("#/definitions/B"))])),
            ("B", object_with(vec![("a", pointing_at("#/definitions/A"))])),
        ]),
    };
    let result = schema_from_schemars_full("Root", &root);
    assert_eq!(result.nested.len(), 2);
    let count = |name: &str| {
        (0..result.nested.len()).filter(|i| result.nested.name_at(*i) == name).count()
    };
    assert_eq!(count("A"), 1);
    assert_eq!(count("B"), 1);
    let a = result.nested.get("A").unwrap();
    let b = result.nested.get("B").unwrap();
    assert_eq!(a.properties.get("b").unwrap().ref_path.as_deref(), Some("#/components/schemas/B"));
    assert_eq!(b.properties.get("a").unwrap().ref_path.as_deref(), Some("#/components/schemas/A"));
    assert_eq!(a.properties.len(), 1);
    assert_eq!(b.properties.len(), 1);
}

#[test]
fn no_name_stands_twice_among_the_definitions() {
    // A table holds a name once: what is stored under a name that is there
    // already takes the place of what was there, before any conversion.
    let definitions = table(vec![
        ("Item", object_with(vec![("code", of_type(InstanceType::String))])),
        ("Item", object_with(vec![("label", of_type(InstanceType::String))])),
    ]);
    assert_eq!(definitions.len(), 1);
    let root = SourceRoot { schema: blank(), definitions };
    let result = schema_from_schemars_full("Root", &root);
    assert_eq!(result.nested.len(), 1);
}
