use hayai::codec::{
    decode, decode_text, encode, encode_numeral, encode_text, numeral_reads_back, read_untyped,
    DecodeError, REFERENCE_DEPTH,
};
use hayai::datum::{Datum, Member};
use hayai::descriptor::{FieldDescriptor, PrimitiveKind, TypeDescriptor};
use hayai::pipeline::{body_event, result_event, Event};
use hayai::registry::SchemaDescriptor;
use hayai::validation::{field, ConstraintSet};

// ---- The declared types ----

fn text_ty() -> TypeDescriptor {
    TypeDescriptor::Primitive(PrimitiveKind::String, None)
}

fn int_ty() -> TypeDescriptor {
    TypeDescriptor::Primitive(PrimitiveKind::Integer, None)
}

fn seq_ty(ty: TypeDescriptor) -> TypeDescriptor {
    TypeDescriptor::Sequence(Box::new(ty))
}

fn map_ty(ty: TypeDescriptor) -> TypeDescriptor {
    TypeDescriptor::StringMap(Box::new(ty))
}

fn opt_ty(ty: TypeDescriptor) -> TypeDescriptor {
    TypeDescriptor::Optional(Box::new(ty))
}

fn fd(name: &str, ty: TypeDescriptor) -> FieldDescriptor {
    let required = !matches!(ty, TypeDescriptor::Optional(_));
    FieldDescriptor { name: name.to_string(), ty, required }
}

fn obj_ty(name: &str, fields: Vec<FieldDescriptor>) -> TypeDescriptor {
    TypeDescriptor::Object(name.to_string(), fields)
}

fn address_ty() -> TypeDescriptor {
    obj_ty("Address", vec![fd("city", text_ty()), fd("country", text_ty())])
}

fn contact_ty() -> TypeDescriptor {
    obj_ty("Contact", vec![fd("email", text_ty()), fd("phone", text_ty())])
}

fn user_profile_ty() -> TypeDescriptor {
    obj_ty(
        "UserProfile",
        vec![fd("name", text_ty()), fd("address", address_ty()), fd("contact", contact_ty())],
    )
}

fn department_ty() -> TypeDescriptor {
    obj_ty("Department", vec![fd("name", text_ty()), fd("budget", int_ty())])
}

fn company_ty() -> TypeDescriptor {
    obj_ty(
        "Company",
        vec![
            fd("name", text_ty()),
            fd("departments", seq_ty(department_ty())),
            fd("headquarters", address_ty()),
        ],
    )
}

fn employee_ty() -> TypeDescriptor {
    obj_ty(
        "Employee",
        vec![
            fd("id", int_ty()),
            fd("name", text_ty()),
            fd("department", department_ty()),
            fd("company", company_ty()),
        ],
    )
}

fn project_ty() -> TypeDescriptor {
    obj_ty(
        "Project",
        vec![
            fd("name", text_ty()),
            fd("manager", employee_ty()),
            fd("team_leads", seq_ty(employee_ty())),
            fd("parent_company", company_ty()),
        ],
    )
}

fn user_with_optional_tags_ty() -> TypeDescriptor {
    obj_ty("UserWithOptionalTags", vec![fd("name", text_ty()), fd("tags", seq_ty(opt_ty(text_ty())))])
}

fn team_member_ty() -> TypeDescriptor {
    obj_ty("TeamMember", vec![fd("name", text_ty()), fd("role", text_ty())])
}

fn team_ty() -> TypeDescriptor {
    obj_ty(
        "TeamWithOptionalMembers",
        vec![fd("name", text_ty()), fd("members", seq_ty(opt_ty(team_member_ty())))],
    )
}

fn warehouse_item_ty() -> TypeDescriptor {
    obj_ty("WarehouseItem", vec![fd("name", text_ty()), fd("quantity", int_ty())])
}

fn inventory_ty() -> TypeDescriptor {
    obj_ty(
        "Inventory",
        vec![fd("name", text_ty()), fd("items_by_category", map_ty(seq_ty(warehouse_item_ty())))],
    )
}

fn user_metadata_ty() -> TypeDescriptor {
    obj_ty("UserMetadata", vec![fd("key", text_ty()), fd("value", text_ty())])
}

fn user_with_optional_metadata_ty() -> TypeDescriptor {
    obj_ty(
        "UserWithOptionalMetadata",
        vec![fd("name", text_ty()), fd("metadata", opt_ty(map_ty(user_metadata_ty())))],
    )
}

fn organization_ty() -> TypeDescriptor {
    obj_ty(
        "Organization",
        vec![
            fd("name", text_ty()),
            fd("companies_by_region", map_ty(seq_ty(company_ty()))),
            fd("subsidiaries", opt_ty(map_ty(company_ty()))),
            fd("department_heads", seq_ty(opt_ty(employee_ty()))),
        ],
    )
}

// ---- Values ----

fn t(s: &str) -> Datum {
    Datum::Text(s.to_string())
}

fn m(name: &str, value: Datum) -> Member {
    Member { name: name.to_string(), value }
}

fn address(city: &str, country: &str) -> Datum {
    Datum::Object(vec![m("city", t(city)), m("country", t(country))])
}

fn department(name: &str, budget: i64) -> Datum {
    Datum::Object(vec![m("name", t(name)), m("budget", Datum::Integer(budget))])
}

fn company(name: &str, departments: Vec<Datum>, headquarters: Datum) -> Datum {
    Datum::Object(vec![
        m("name", t(name)),
        m("departments", Datum::List(departments)),
        m("headquarters", headquarters),
    ])
}

fn employee(id: i64, name: &str, department: Datum, company: Datum) -> Datum {
    Datum::Object(vec![
        m("id", Datum::Integer(id)),
        m("name", t(name)),
        m("department", department),
        m("company", company),
    ])
}

fn acme() -> Datum {
    company("Acme", vec![], address("SF", "USA"))
}

// ---- Access ----

fn at<'a>(value: &'a Datum, name: &str) -> &'a Datum {
    field(value, name).unwrap_or_else(|| panic!("no field {}", name))
}

fn text_of(value: &Datum) -> &str {
    match value {
        Datum::Text(s) => s,
        other => panic!("no text: {:?}", other),
    }
}

fn int_of(value: &Datum) -> i64 {
    match value {
        Datum::Integer(i) => *i,
        other => panic!("no integer: {:?}", other),
    }
}

fn items_of(value: &Datum) -> &Vec<Datum> {
    match value {
        Datum::List(items) => items,
        other => panic!("no list: {:?}", other),
    }
}

fn entries_of(value: &Datum) -> &Vec<Member> {
    match value {
        Datum::Table(entries) => entries,
        other => panic!("no map: {:?}", other),
    }
}

fn entry<'a>(value: &'a Datum, key: &str) -> Option<&'a Datum> {
    entries_of(value).iter().find(|e| e.name == key).map(|e| &e.value)
}

fn round_trip(value: &Datum, ty: &TypeDescriptor) -> Datum {
    let json = encode_text(value).unwrap();
    decode_text(&json, ty, &vec![], REFERENCE_DEPTH).unwrap()
}

// ---- Round trips through the wire format ----

#[test]
fn test_level0_address_json_roundtrip() {
    let addr = address("Tokyo", "Japan");
    let parsed = round_trip(&addr, &address_ty());
    assert_eq!(text_of(at(&parsed, "city")), "Tokyo");
    assert_eq!(text_of(at(&parsed, "country")), "Japan");
}

#[test]
fn test_level1_userprofile_json_roundtrip() {
    let profile = Datum::Object(vec![
        m("name", t("Alice")),
        m("address", address("Tokyo", "Japan")),
        m(
            "contact",
            Datum::Object(vec![m("email", t("alice@example.com")), m("phone", t("+81-90-1234-5678"))]),
        ),
    ]);
    let parsed = round_trip(&profile, &user_profile_ty());
    assert_eq!(text_of(at(&parsed, "name")), "Alice");
    assert_eq!(text_of(at(at(&parsed, "address"), "city")), "Tokyo");
    assert_eq!(text_of(at(at(&parsed, "contact"), "email")), "alice@example.com");
}

#[test]
fn test_level2_company_json_roundtrip() {
    let company = company(
        "Acme Corp",
        vec![department("Engineering", 1000000), department("Sales", 500000)],
        address("San Francisco", "USA"),
    );
    let parsed = round_trip(&company, &company_ty());
    assert_eq!(text_of(at(&parsed, "name")), "Acme Corp");
    assert_eq!(items_of(at(&parsed, "departments")).len(), 2);
    assert_eq!(text_of(at(at(&parsed, "headquarters"), "city")), "San Francisco");
}

#[test]
fn test_level3_employee_json_roundtrip() {
    let employee = employee(
        1,
        "Bob",
        department("Engineering", 1000000),
        company("Acme Corp", vec![], address("San Francisco", "USA")),
    );
    let parsed = round_trip(&employee, &employee_ty());
    assert_eq!(int_of(at(&parsed, "id")), 1);
    assert_eq!(text_of(at(at(&parsed, "department"), "name")), "Engineering");
    assert_eq!(text_of(at(at(&parsed, "company"), "name")), "Acme Corp");
}

#[test]
fn test_level4_project_json_roundtrip() {
    let project = Datum::Object(vec![
        m("name", t("Secret Project")),
        m("manager", employee(1, "Alice", department("Engineering", 1000000), acme())),
        m("team_leads", Datum::List(vec![employee(2, "Bob", department("Dev", 500000), acme())])),
        m("parent_company", company("Parent Corp", vec![], address("NYC", "USA"))),
    ]);
    let parsed = round_trip(&project, &project_ty());
    assert_eq!(text_of(at(&parsed, "name")), "Secret Project");
    assert_eq!(text_of(at(at(&parsed, "manager"), "name")), "Alice");
    assert_eq!(items_of(at(&parsed, "team_leads")).len(), 1);
    assert_eq!(text_of(at(at(&parsed, "parent_company"), "name")), "Parent Corp");
}

#[test]
fn test_vec_option_string_json_roundtrip() {
    let user = Datum::Object(vec![
        m("name", t("Alice")),
        m("tags", Datum::List(vec![t("admin"), Datum::Null, t("developer")])),
    ]);
    let parsed = round_trip(&user, &user_with_optional_tags_ty());
    assert_eq!(text_of(at(&parsed, "name")), "Alice");
    let tags = items_of(at(&parsed, "tags"));
    assert_eq!(tags.len(), 3);
    assert_eq!(text_of(&tags[0]), "admin");
    assert!(matches!(tags[1], Datum::Null));
    assert_eq!(text_of(&tags[2]), "developer");
}

#[test]
fn test_vec_option_struct_json_roundtrip() {
    let member = |name: &str, role: &str| Datum::Object(vec![m("name", t(name)), m("role", t(role))]);
    let team = Datum::Object(vec![
        m("name", t("Engineering")),
        m("members", Datum::List(vec![member("Alice", "lead"), Datum::Null, member("Bob", "dev")])),
    ]);
    let parsed = round_trip(&team, &team_ty());
    assert_eq!(text_of(at(&parsed, "name")), "Engineering");
    let members = items_of(at(&parsed, "members"));
    assert_eq!(members.len(), 3);
    assert!(!matches!(members[0], Datum::Null));
    assert!(matches!(members[1], Datum::Null));
    assert_eq!(text_of(at(&members[2], "name")), "Bob");
}

#[test]
fn test_hashmap_vec_json_roundtrip() {
    let item = |name: &str, quantity: i64| {
        Datum::Object(vec![m("name", t(name)), m("quantity", Datum::Integer(quantity))])
    };
    let inventory = Datum::Object(vec![
        m("name", t("Main Warehouse")),
        m(
            "items_by_category",
            Datum::Table(vec![
                m("electronics", Datum::List(vec![item("Laptop", 10), item("Phone", 50)])),
                m("furniture", Datum::List(vec![item("Desk", 5)])),
            ]),
        ),
    ]);
    let parsed = round_trip(&inventory, &inventory_ty());
    assert_eq!(text_of(at(&parsed, "name")), "Main Warehouse");
    let by_category = at(&parsed, "items_by_category");
    assert!(entry(by_category, "electronics").is_some());
    assert!(entry(by_category, "furniture").is_some());
    assert_eq!(items_of(entry(by_category, "electronics").unwrap()).len(), 2);
    assert_eq!(text_of(at(&items_of(entry(by_category, "furniture").unwrap())[0], "name")), "Desk");
}

#[test]
fn test_option_hashmap_json_roundtrip() {
    let meta = |key: &str, value: &str| Datum::Object(vec![m("key", t(key)), m("value", t(value))]);
    let user = Datum::Object(vec![
        m("name", t("Alice")),
        m(
            "metadata",
            Datum::Table(vec![
                m("role", meta("role", "admin")),
                m("department", meta("department", "Engineering")),
            ]),
        ),
    ]);
    let parsed = round_trip(&user, &user_with_optional_metadata_ty());
    assert_eq!(text_of(at(&parsed, "name")), "Alice");
    let metadata = at(&parsed, "metadata");
    assert!(!matches!(metadata, Datum::Null));
    assert!(entry(metadata, "role").is_some());
    assert_eq!(text_of(at(entry(metadata, "role").unwrap(), "value")), "admin");
}

#[test]
fn test_option_hashmap_none_json_roundtrip() {
    let user = Datum::Object(vec![m("name", t("Bob")), m("metadata", Datum::Null)]);
    let parsed = round_trip(&user, &user_with_optional_metadata_ty());
    assert_eq!(text_of(at(&parsed, "name")), "Bob");
    assert!(matches!(at(&parsed, "metadata"), Datum::Null));
}

#[test]
fn test_combined_complex_types_json_roundtrip() {
    let org = Datum::Object(vec![
        m("name", t("MegaCorp")),
        m(
            "companies_by_region",
            Datum::Table(vec![
                m("americas", Datum::List(vec![company("Acme US", vec![], address("NYC", "USA"))])),
                m("europe", Datum::List(vec![company("Acme EU", vec![], address("London", "UK"))])),
            ]),
        ),
        m(
            "subsidiaries",
            Datum::Table(vec![m("subsidiary1", company("SubCorp", vec![], address("Tokyo", "Japan")))]),
        ),
        m(
            "department_heads",
            Datum::List(vec![employee(1, "Alice", department("Eng", 100), acme()), Datum::Null]),
        ),
    ]);
    let parsed = round_trip(&org, &organization_ty());
    assert_eq!(text_of(at(&parsed, "name")), "MegaCorp");
    assert!(entry(at(&parsed, "companies_by_region"), "americas").is_some());
    assert!(!matches!(at(&parsed, "subsidiaries"), Datum::Null));
    let heads = items_of(at(&parsed, "department_heads"));
    assert!(!matches!(heads[0], Datum::Null));
    assert!(matches!(heads[1], Datum::Null));
}

// ---- Writing ----

#[test]
fn values_are_written_as_json() {
    assert_eq!(encode_text(&Datum::Null).unwrap(), "null");
    assert_eq!(encode_text(&Datum::Bool(true)).unwrap(), "true");
    assert_eq!(encode_text(&Datum::Integer(-42)).unwrap(), "-42");
    assert_eq!(encode_text(&t("a\"b")).unwrap(), "\"a\\\"b\"");
    assert_eq!(encode_text(&Datum::List(vec![Datum::Integer(1), Datum::Null])).unwrap(), "[1,null]");
    let json = encode(&address("Tokyo", "Japan"));
    assert_eq!(json["city"], "Tokyo");
    assert_eq!(json["country"], "Japan");
    assert_eq!(json.as_object().unwrap().len(), 2);
    let table = Datum::Table(vec![m("a", Datum::Integer(1)), m("a", Datum::Integer(2))]);
    assert_eq!(encode(&table)["a"], 2);
}

// ---- Reading ----

fn read(text: &str, ty: &TypeDescriptor) -> Result<Datum, DecodeError> {
    decode_text(text, ty, &vec![], REFERENCE_DEPTH)
}

#[test]
fn primitives_are_read_by_kind() {
    assert_eq!(text_of(&read("\"x\"", &text_ty()).unwrap()), "x");
    assert_eq!(int_of(&read("7", &int_ty()).unwrap()), 7);
    assert_eq!(int_of(&read("-9223372036854775808", &int_ty()).unwrap()), i64::MIN);
    let number = TypeDescriptor::Primitive(PrimitiveKind::Number, None);
    assert_eq!(int_of(&read("7", &number).unwrap()), 7);
    let boolean = TypeDescriptor::Primitive(PrimitiveKind::Boolean, None);
    assert!(matches!(read("false", &boolean).unwrap(), Datum::Bool(false)));
}

#[test]
fn what_is_of_another_kind_is_refused() {
    assert_eq!(read("7", &text_ty()).unwrap_err(), DecodeError::Shape);
    assert_eq!(read("\"7\"", &int_ty()).unwrap_err(), DecodeError::Shape);
    assert_eq!(read("1.5", &int_ty()).unwrap_err(), DecodeError::Shape);
    assert_eq!(read("9223372036854775808", &int_ty()).unwrap_err(), DecodeError::Shape);
    assert_eq!(read("null", &text_ty()).unwrap_err(), DecodeError::Shape);
    assert_eq!(read("{}", &seq_ty(text_ty())).unwrap_err(), DecodeError::Shape);
    assert_eq!(read("[]", &map_ty(text_ty())).unwrap_err(), DecodeError::Shape);
    assert_eq!(read("[1, \"a\"]", &seq_ty(int_ty())).unwrap_err(), DecodeError::Shape);
    assert_eq!(read("{\"a\": 1, \"b\": \"x\"}", &map_ty(int_ty())).unwrap_err(), DecodeError::Shape);
}

#[test]
fn what_is_no_json_is_refused() {
    assert_eq!(read("{not json", &address_ty()).unwrap_err(), DecodeError::Syntax);
    assert_eq!(read("", &text_ty()).unwrap_err(), DecodeError::Syntax);
}

#[test]
fn objects_are_read_field_by_field() {
    let parsed = read("{\"country\": \"Japan\", \"extra\": 1, \"city\": \"Tokyo\"}", &address_ty()).unwrap();
    match &parsed {
        Datum::Object(fields) => {
            // The fields come in the order of their declaration; what is no
            // field is passed over.
            assert_eq!(fields.len(), 2);
            assert_eq!(fields[0].name, "city");
            assert_eq!(fields[1].name, "country");
        }
        other => panic!("no object: {:?}", other),
    }
    assert_eq!(read("{\"city\": \"Tokyo\"}", &address_ty()).unwrap_err(), DecodeError::Shape);
    assert_eq!(
        read("{\"city\": \"Tokyo\", \"country\": 1}", &address_ty()).unwrap_err(),
        DecodeError::Shape
    );
}

#[test]
fn fields_that_are_not_required_may_be_missing() {
    let ty = user_with_optional_metadata_ty();
    let parsed = read("{\"name\": \"Bob\"}", &ty).unwrap();
    assert!(matches!(at(&parsed, "metadata"), Datum::Null));
    let parsed = read("{\"name\": \"Bob\", \"metadata\": null}", &ty).unwrap();
    assert!(matches!(at(&parsed, "metadata"), Datum::Null));
    assert_eq!(read("{\"metadata\": null}", &ty).unwrap_err(), DecodeError::Shape);
}

fn node_types() -> Vec<SchemaDescriptor> {
    let node = obj_ty(
        "Node",
        vec![
            fd("label", text_ty()),
            fd("next", opt_ty(TypeDescriptor::Reference("Node".to_string()))),
        ],
    );
    vec![SchemaDescriptor {
        name: "Node".to_string(),
        ty: node,
        constraints: ConstraintSet { checks: vec![] },
    }]
}

#[test]
fn references_are_followed_as_far_as_the_depth_allows() {
    let types = node_types();
    let ty = TypeDescriptor::Reference("Node".to_string());
    let text = "{\"label\": \"a\", \"next\": {\"label\": \"b\", \"next\": null}}";
    let parsed = decode_text(text, &ty, &types, REFERENCE_DEPTH).unwrap();
    assert_eq!(text_of(at(&parsed, "label")), "a");
    assert_eq!(text_of(at(at(&parsed, "next"), "label")), "b");
    assert!(matches!(at(at(&parsed, "next"), "next"), Datum::Null));
    // Two references are followed here: that of the root and that of `next`.
    assert!(decode_text(text, &ty, &types, 2).is_ok());
    assert_eq!(decode_text(text, &ty, &types, 1).unwrap_err(), DecodeError::Shape);
    assert_eq!(decode_text(text, &ty, &types, 0).unwrap_err(), DecodeError::Shape);
    // A reference to a type that is not declared reads nothing.
    let unknown = TypeDescriptor::Reference("Missing".to_string());
    assert_eq!(decode_text("{}", &unknown, &types, REFERENCE_DEPTH).unwrap_err(), DecodeError::Shape);
}

#[test]
fn decoding_works_on_values_as_on_texts() {
    let json = encode(&department("Eng", 100));
    let parsed = decode(&json, &department_ty(), &vec![], 0).unwrap();
    assert_eq!(int_of(at(&parsed, "budget")), 100);
    assert!(decode(&json, &address_ty(), &vec![], 0).is_none());
}

// ---- The events for the pipeline ----

#[test]
fn bodies_become_events() {
    match body_event("{\"city\": \"Tokyo\", \"country\": \"Japan\"}", &address_ty(), &vec![], REFERENCE_DEPTH) {
        Event::BodyDecoded(body) => assert_eq!(text_of(at(&body, "city")), "Tokyo"),
        other => panic!("expected a body, got {:?}", other),
    }
    match body_event("{not json", &address_ty(), &vec![], REFERENCE_DEPTH) {
        Event::BodyMalformed(reason) => assert_eq!(reason, "not valid JSON"),
        other => panic!("expected a malformed body, got {:?}", other),
    }
    match body_event("{\"city\": 1}", &address_ty(), &vec![], REFERENCE_DEPTH) {
        Event::BodyMalformed(reason) => assert_eq!(reason, "not a value of the declared type"),
        other => panic!("expected a malformed body, got {:?}", other),
    }
}

#[test]
fn results_become_events() {
    match result_event(&department("Eng", 100)) {
        Event::Encoded(text) => {
            let back: serde_json::Value = serde_json::from_str(&text).unwrap();
            assert_eq!(back["budget"], 100);
            assert_eq!(back["name"], "Eng");
            assert_eq!(back.as_object().unwrap().len(), 2);
        }
        other => panic!("expected a text, got {:?}", other),
    }
}

// ---- Numbers that are no integers ----

fn number_ty() -> TypeDescriptor {
    TypeDescriptor::Primitive(PrimitiveKind::Number, None)
}

fn numeral_of(value: &Datum) -> &str {
    match value {
        Datum::Decimal(numeral) => numeral,
        other => panic!("no numeral: {:?}", other),
    }
}

#[test]
fn number_field_reads_a_fraction() {
    let product = obj_ty("Product", vec![fd("name", text_ty()), fd("price", number_ty())]);
    let parsed = read("{\"name\": \"tea\", \"price\": 9.99}", &product).unwrap();
    assert_eq!(numeral_of(at(&parsed, "price")), "9.99");
    assert_eq!(text_of(at(&parsed, "name")), "tea");
}

#[test]
fn number_reads_every_json_number() {
    assert_eq!(int_of(&read("-3", &number_ty()).unwrap()), -3);
    assert_eq!(numeral_of(&read("-0.5", &number_ty()).unwrap()), "-0.5");
    assert_eq!(numeral_of(&read("2.50", &number_ty()).unwrap()), "2.5");
    assert_eq!(
        numeral_of(&read("18446744073709551615", &number_ty()).unwrap()),
        "18446744073709551615"
    );
    assert_eq!(read("\"9.99\"", &number_ty()).unwrap_err(), DecodeError::Shape);
    assert_eq!(read("null", &number_ty()).unwrap_err(), DecodeError::Shape);
    assert_eq!(read("9.99", &int_ty()).unwrap_err(), DecodeError::Shape);
}

#[test]
fn numeral_is_written_as_a_number() {
    let json = encode(&Datum::Decimal("9.99".to_string()));
    assert!(json.is_number());
    assert_eq!(serde_json::to_string(&json).unwrap(), "9.99");
    assert_eq!(encode_text(&Datum::Decimal("-0.5".to_string())).unwrap(), "-0.5");
    let whole = encode(&Datum::Decimal("12".to_string()));
    assert_eq!(whole.as_i64(), Some(12));
}

#[test]
fn text_that_is_no_numeral_is_written_as_a_string() {
    let json = encode(&Datum::Decimal("nine".to_string()));
    assert_eq!(json.as_str(), Some("nine"));
    let json = encode(&Datum::Decimal("true".to_string()));
    assert_eq!(json.as_str(), Some("true"));
    let json = encode_numeral("[1]", serde_json::from_str("[1]").ok());
    assert_eq!(json.as_str(), Some("[1]"));
    let json = encode_numeral("7", None);
    assert_eq!(json.as_str(), Some("7"));
}

#[test]
fn fraction_survives_writing_and_reading() {
    let product = obj_ty("Product", vec![fd("price", number_ty())]);
    let value = Datum::Object(vec![Member {
        name: "price".to_string(),
        value: Datum::Decimal("9.99".to_string()),
    }]);
    let text = encode_text(&value).unwrap();
    assert_eq!(text, "{\"price\":9.99}");
    let back = read(&text, &product).unwrap();
    assert_eq!(numeral_of(at(&back, "price")), "9.99");
}

// ---- Reading without a declared type ----

#[test]
fn untyped_reading_keeps_the_kinds() {
    let json: serde_json::Value =
        serde_json::from_str("[null, true, 7, 1.5, \"x\", [1, 2], {\"a\": 1}]").unwrap();
    let value = read_untyped(&json, 4);
    let items = items_of(&value);
    assert_eq!(items.len(), 7);
    assert!(matches!(items[0], Datum::Null));
    assert!(matches!(items[1], Datum::Bool(true)));
    assert_eq!(int_of(&items[2]), 7);
    assert_eq!(numeral_of(&items[3]), "1.5");
    assert_eq!(text_of(&items[4]), "x");
    assert_eq!(int_of(&items_of(&items[5])[1]), 2);
    match &items[6] {
        Datum::Table(entries) => {
            assert_eq!(entries.len(), 1);
            assert_eq!(entries[0].name, "a");
            assert_eq!(int_of(&entries[0].value), 1);
        }
        other => panic!("no map: {:?}", other),
    }
}

#[test]
fn untyped_reading_stops_at_its_depth() {
    let json: serde_json::Value = serde_json::from_str("[[1, 2], 3]").unwrap();
    let shallow = read_untyped(&json, 0);
    let items = items_of(&shallow);
    assert_eq!(items.len(), 2);
    assert!(matches!(items[0], Datum::Null));
    assert!(matches!(items[1], Datum::Null));
    let deeper = read_untyped(&json, 1);
    let items = items_of(&deeper);
    assert_eq!(int_of(&items[1]), 3);
    let inner = items_of(&items[0]);
    assert_eq!(inner.len(), 2);
    assert!(matches!(inner[0], Datum::Null));
}

#[test]
fn numerals_that_read_back_as_themselves_are_told() {
    assert!(numeral_reads_back("9.99"));
    assert!(numeral_reads_back("-0.5"));
    assert!(numeral_reads_back("18446744073709551615"));
    assert!(!numeral_reads_back("9.990"));
    assert!(!numeral_reads_back("1e2"));
    assert!(!numeral_reads_back("7"));
    assert!(!numeral_reads_back("\"9.99\""));
    assert!(!numeral_reads_back("nine"));
    assert!(!numeral_reads_back(""));
}

#[test]
fn numeral_that_reads_back_survives_the_round_trip() {
    for numeral in ["9.99", "-0.5", "0.001", "18446744073709551615"] {
        assert!(numeral_reads_back(numeral));
        let json = encode(&Datum::Decimal(numeral.to_string()));
        let back = decode(&json, &number_ty(), &vec![], REFERENCE_DEPTH).unwrap();
        assert_eq!(numeral_of(&back), numeral);
    }
}
