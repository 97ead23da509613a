use hayai::datum::{Datum, Member};
use hayai::descriptor::{FieldDescriptor, PrimitiveKind, TypeDescriptor};
use hayai::patch::patch_schema;
use hayai::registry::{Registry, SchemaDescriptor};
use hayai::synthesis::synthesize;
use hayai::validation::{validate, Check, ConstraintSet, Rule};

fn member(name: &str, value: Datum) -> Member {
    Member { name: name.to_string(), value }
}

fn validated_item(code: &str, price: i64) -> Datum {
    Datum::Object(vec![
        member("code", Datum::Text(code.to_string())),
        member("price", Datum::Integer(price)),
    ])
}

fn validated_item_rules() -> ConstraintSet {
    ConstraintSet {
        checks: vec![
            Check { field: "code".to_string(), rule: Rule::MinLength(1) },
            Check { field: "code".to_string(), rule: Rule::MaxLength(100) },
            Check { field: "price".to_string(), rule: Rule::Minimum(1) },
            Check { field: "price".to_string(), rule: Rule::Maximum(10000) },
        ],
    }
}

fn address(city: &str, country: &str) -> Datum {
    Datum::Object(vec![
        member("city", Datum::Text(city.to_string())),
        member("country", Datum::Text(country.to_string())),
    ])
}

fn order(id: i64, items: Vec<Datum>, billing_address: Option<Datum>, tags: Vec<Option<&str>>) -> Datum {
    Datum::Object(vec![
        member("id", Datum::Integer(id)),
        member("items", Datum::List(items)),
        member("billing_address", billing_address.unwrap_or(Datum::Null)),
        member(
            "tags",
            Datum::List(
                tags.into_iter()
                    .map(|t| match t {
                        Some(s) => Datum::Text(s.to_string()),
                        None => Datum::Null,
                    })
                    .collect(),
            ),
        ),
    ])
}

// The order type declares no constraint of its own.
fn order_rules() -> ConstraintSet {
    ConstraintSet { checks: vec![] }
}

#[test]
fn test_validated_item_validation_passes() {
    let item = validated_item("ABC123", 100);
    assert!(validate(&item, &validated_item_rules()).is_ok());
}

#[test]
fn test_validated_item_min_length_fails() {
    let item = validated_item("", 100);
    let err = validate(&item, &validated_item_rules()).unwrap_err();
    assert!(err.iter().any(|e| e.contains("must be at least 1")));
}

#[test]
fn test_validated_item_max_length_fails() {
    let item = validated_item(&"a".repeat(101), 100);
    let err = validate(&item, &validated_item_rules()).unwrap_err();
    assert!(err.iter().any(|e| e.contains("must be at most 100")));
}

#[test]
fn test_validated_item_minimum_fails() {
    let item = validated_item("ABC", 0);
    let err = validate(&item, &validated_item_rules()).unwrap_err();
    assert!(err.iter().any(|e| e.contains("must be at least 1")));
}

#[test]
fn test_validated_item_maximum_fails() {
    let item = validated_item("ABC", 10001);
    let err = validate(&item, &validated_item_rules()).unwrap_err();
    assert!(err.iter().any(|e| e.contains("must be at most 10000")));
}

#[test]
fn test_order_validation_nested_items() {
    let order = order(
        1,
        vec![validated_item("A", 10), validated_item("B", 20)],
        Some(address("Tokyo", "Japan")),
        vec![Some("express")],
    );
    assert!(validate(&order, &order_rules()).is_ok());
}

#[test]
fn test_order_validation_nested_item_fails() {
    // Constraints are not carried into nested items: the empty code of the
    // nested item goes unnoticed.
    let order = order(1, vec![validated_item("", 10)], None, vec![]);
    assert!(validate(&order, &order_rules()).is_ok());
}

#[test]
fn test_order_validation_multiple_nested_failures() {
    let order = order(1, vec![validated_item("", 10), validated_item("B", 10001)], None, vec![]);
    assert!(validate(&order, &order_rules()).is_ok());
}

// ---- The declared types ----

fn text_type() -> TypeDescriptor {
    TypeDescriptor::Primitive(PrimitiveKind::String, None)
}

fn integer_type() -> TypeDescriptor {
    TypeDescriptor::Primitive(PrimitiveKind::Integer, None)
}

fn list_of(ty: TypeDescriptor) -> TypeDescriptor {
    TypeDescriptor::Sequence(Box::new(ty))
}

fn map_of(ty: TypeDescriptor) -> TypeDescriptor {
    TypeDescriptor::StringMap(Box::new(ty))
}

fn maybe(ty: TypeDescriptor) -> TypeDescriptor {
    TypeDescriptor::Optional(Box::new(ty))
}

fn has(name: &str, ty: TypeDescriptor) -> FieldDescriptor {
    let required = !matches!(ty, TypeDescriptor::Optional(_));
    FieldDescriptor { name: name.to_string(), ty, required }
}

fn record(name: &str, fields: Vec<FieldDescriptor>) -> TypeDescriptor {
    TypeDescriptor::Object(name.to_string(), fields)
}

fn address_type() -> TypeDescriptor {
    record("Address", vec![has("city", text_type()), has("country", text_type())])
}

fn contact_type() -> TypeDescriptor {
    record("Contact", vec![has("email", text_type()), has("phone", text_type())])
}

fn user_profile_type() -> TypeDescriptor {
    record(
        "UserProfile",
        vec![has("name", text_type()), has("address", address_type()), has("contact", contact_type())],
    )
}

fn department_type() -> TypeDescriptor {
    record("Department", vec![has("name", text_type()), has("budget", integer_type())])
}

fn company_type() -> TypeDescriptor {
    record(
        "Company",
        vec![
            has("name", text_type()),
            has("departments", list_of(department_type())),
            has("headquarters", address_type()),
        ],
    )
}

fn employee_type() -> TypeDescriptor {
    record(
        "Employee",
        vec![
            has("id", integer_type()),
            has("name", text_type()),
            has("department", department_type()),
            has("company", company_type()),
        ],
    )
}

fn project_type() -> TypeDescriptor {
    record(
        "Project",
        vec![
            has("name", text_type()),
            has("manager", employee_type()),
            has("team_leads", list_of(employee_type())),
            has("parent_company", company_type()),
        ],
    )
}

fn user_with_optional_tags_type() -> TypeDescriptor {
    record(
        "UserWithOptionalTags",
        vec![has("name", text_type()), has("tags", list_of(maybe(text_type())))],
    )
}

fn team_member_type() -> TypeDescriptor {
    record("TeamMember", vec![has("name", text_type()), has("role", text_type())])
}

fn team_with_optional_members_type() -> TypeDescriptor {
    record(
        "TeamWithOptionalMembers",
        vec![has("name", text_type()), has("members", list_of(maybe(team_member_type())))],
    )
}

fn warehouse_item_type() -> TypeDescriptor {
    record("WarehouseItem", vec![has("name", text_type()), has("quantity", integer_type())])
}

fn inventory_type() -> TypeDescriptor {
    record(
        "Inventory",
        vec![
            has("name", text_type()),
            has("items_by_category", map_of(list_of(warehouse_item_type()))),
        ],
    )
}

fn user_metadata_type() -> TypeDescriptor {
    record("UserMetadata", vec![has("key", text_type()), has("value", text_type())])
}

fn user_with_optional_metadata_type() -> TypeDescriptor {
    record(
        "UserWithOptionalMetadata",
        vec![has("name", text_type()), has("metadata", maybe(map_of(user_metadata_type())))],
    )
}

fn organization_type() -> TypeDescriptor {
    record(
        "Organization",
        vec![
            has("name", text_type()),
            has("companies_by_region", map_of(list_of(company_type()))),
            has("subsidiaries", maybe(map_of(company_type()))),
            has("department_heads", list_of(maybe(employee_type()))),
        ],
    )
}

fn validated_item_type() -> TypeDescriptor {
    record("ValidatedItem", vec![has("code", text_type()), has("price", integer_type())])
}

fn order_type() -> TypeDescriptor {
    record(
        "Order",
        vec![
            has("id", integer_type()),
            has("items", list_of(validated_item_type())),
            has("billing_address", maybe(address_type())),
            has("tags", list_of(maybe(text_type()))),
        ],
    )
}

fn declared(name: &str, ty: TypeDescriptor) -> SchemaDescriptor {
    SchemaDescriptor { name: name.to_string(), ty, constraints: ConstraintSet { checks: vec![] } }
}

// ---- Schema generation ----

#[test]
fn test_nested_schemas_all_present() {
    let mut registry = Registry::new();
    registry.register_schema(declared("Address", address_type())).unwrap();
    registry.register_schema(declared("Contact", contact_type())).unwrap();
    registry.register_schema(declared("UserProfile", user_profile_type())).unwrap();
    registry.register_schema(declared("Department", department_type())).unwrap();
    registry.register_schema(declared("Company", company_type())).unwrap();
    registry.register_schema(declared("Employee", employee_type())).unwrap();
    registry.register_schema(declared("Project", project_type())).unwrap();

    let schemas = registry.all_schemas();
    assert!(schemas.iter().any(|s| s.name == "Address"));
    assert!(schemas.iter().any(|s| s.name == "Contact"));
    assert!(schemas.iter().any(|s| s.name == "UserProfile"));
    assert!(schemas.iter().any(|s| s.name == "Department"));
    assert!(schemas.iter().any(|s| s.name == "Company"));
    assert!(schemas.iter().any(|s| s.name == "Employee"));
    assert!(schemas.iter().any(|s| s.name == "Project"));
}

#[test]
fn test_level4_project_ref_paths_valid() {
    let graph = synthesize(&project_type()).unwrap();
    let nested = &graph.nested;
    assert!(nested.contains_key("Address"));
    assert!(nested.contains_key("Department"));
    assert!(nested.contains_key("Company"));
    assert!(nested.contains_key("Employee"));
}

#[test]
fn test_project_schema_has_valid_refs() {
    let graph = synthesize(&project_type()).unwrap();
    let json = graph.schema().unwrap().to_json_value();

    let manager = &json["properties"]["manager"];
    assert!(manager.get("$ref").is_some() || manager.get("anyOf").is_some());

    let team_leads = &json["properties"]["team_leads"];
    assert_eq!(team_leads["type"], "array");

    let parent_company = &json["properties"]["parent_company"];
    assert!(parent_company.get("$ref").is_some() || parent_company.get("anyOf").is_some());
}

#[test]
fn test_vec_option_string_schema() {
    let graph = synthesize(&user_with_optional_tags_type()).unwrap();
    let json = graph.schema().unwrap().to_json_value();

    let tags = &json["properties"]["tags"];
    assert_eq!(tags["type"], "array");
    let items = &tags["items"];
    assert!(items.get("anyOf").is_some() || items.get("nullable").is_some() || items.get("type").is_some());
}

#[test]
fn test_vec_option_struct_schema() {
    let graph = synthesize(&team_with_optional_members_type()).unwrap();
    let json = graph.schema().unwrap().to_json_value();

    assert!(graph.nested.contains_key("TeamMember"));

    let members = &json["properties"]["members"];
    assert_eq!(members["type"], "array");
}

#[test]
fn test_hashmap_vec_schema() {
    let graph = synthesize(&inventory_type()).unwrap();
    let json = graph.schema().unwrap().to_json_value();

    assert!(graph.nested.contains_key("WarehouseItem"));

    let items = &json["properties"]["items_by_category"];
    assert_eq!(items["type"], "object");
    assert!(items.get("additionalProperties").is_some());

    let ap = &items["additionalProperties"];
    assert_eq!(ap["type"], "array");
    assert!(ap.get("items").is_some());
}

#[test]
fn test_option_hashmap_schema() {
    let graph = synthesize(&user_with_optional_metadata_type()).unwrap();
    let json = graph.schema().unwrap().to_json_value();

    assert!(graph.nested.contains_key("UserMetadata"));

    let metadata = &json["properties"]["metadata"];
    assert!(metadata.get("nullable").unwrap_or(&serde_json::Value::Bool(false)).as_bool().unwrap_or(false)
            || metadata.get("anyOf").is_some()
            || json["required"].as_array().map(|r| !r.contains(&serde_json::Value::String("metadata".into()))).unwrap_or(true));
}

#[test]
fn test_combined_complex_types_schema() {
    let graph = synthesize(&organization_type()).unwrap();
    let json = graph.schema().unwrap().to_json_value();
    let nested = &graph.nested;

    assert!(nested.contains_key("Address"));
    assert!(nested.contains_key("Department"));
    assert!(nested.contains_key("Company"));
    assert!(nested.contains_key("Employee"));

    let companies = &json["properties"]["companies_by_region"];
    assert_eq!(companies["type"], "object");
    assert!(companies.get("additionalProperties").is_some());

    let _subs = &json["properties"]["subsidiaries"];
    let required: Vec<String> = json["required"].as_array()
        .map(|arr| arr.iter().filter_map(|v| v.as_str().map(String::from)).collect())
        .unwrap_or_default();
    assert!(!required.contains(&"subsidiaries".to_string()));
}

#[test]
fn test_order_schema_has_nested_constraints() {
    let graph = synthesize(&order_type()).unwrap();
    let json = graph.schema().unwrap().to_json_value();

    let items_prop = &json["properties"]["items"];
    assert_eq!(items_prop["type"], "array");

    assert!(graph.nested.contains_key("ValidatedItem"));
    let item_schema = patch_schema(graph.nested.get("ValidatedItem").unwrap(), &validated_item_rules());
    let code_prop = item_schema.properties.get("code").unwrap();
    assert_eq!(code_prop.min_length, Some(1));
    assert_eq!(code_prop.max_length, Some(100));
    let price_prop = item_schema.properties.get("price").unwrap();
    assert_eq!(price_prop.minimum, Some(1));
    assert_eq!(price_prop.maximum, Some(10000));
}
