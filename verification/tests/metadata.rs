use zino_orm::dialect::Dialect;
use zino_orm::meta::{
    Attr, FieldDeclaration, ModelDeclaration, ReferencedModel, derive_column, derive_schema,
    primary_key_of,
};
use zino_orm::secret::{app_key, init};
use zino_orm::value::JsonValue;

fn attr(key: &str, value: Option<&str>) -> Attr {
    Attr { key: key.to_string(), value: value.map(|v| v.to_string()) }
}

fn field(name: &str, field_type: &str, attrs: Vec<Attr>) -> FieldDeclaration {
    FieldDeclaration { name: name.to_string(), field_type: field_type.to_string(), attrs }
}

fn sample_model() -> ModelDeclaration {
    ModelDeclaration {
        name: "UserProfile".to_string(),
        namespace: "app.models".to_string(),
        attrs: vec![attr("reader_name", Some("replica")), attr("comment", Some("profiles"))],
        fields: vec![
            field("id", "Uuid", vec![attr("primary_key", None)]),
            field(
                "name",
                "String",
                vec![attr("not_null", None), attr("max_length", Some("32"))],
            ),
            field("version", "u64", vec![]),
            field("owner_id", "Uuid", vec![attr("reference", Some("User"))]),
            field("scratch", "String", vec![attr("ignore", None)]),
        ],
    }
}

fn registry() -> Vec<ReferencedModel> {
    vec![ReferencedModel {
        model_name: "User".to_string(),
        table_name: "users".to_string(),
        primary_key_name: "id".to_string(),
    }]
}

#[test]
fn derives_the_schema_descriptor() {
    let descriptor = derive_schema(&sample_model(), &registry());
    assert_eq!(descriptor.model_name, "UserProfile");
    assert_eq!(descriptor.canonical_name, "user_profile");
    assert_eq!(descriptor.namespace, "app.models");
    assert_eq!(descriptor.doc.as_deref(), Some("profiles"));
    assert_eq!(descriptor.reader_name, "replica");
    assert_eq!(descriptor.writer_name, "main");
    assert_eq!(descriptor.table_name, None);
    assert_eq!(descriptor.primary_key_name, "id");
    assert_eq!(descriptor.primary_key_type, "Uuid");
    let names: Vec<&str> = descriptor.columns.iter().map(|c| c.name()).collect();
    assert_eq!(names, vec!["id", "name", "version", "owner_id"]);
}

#[test]
fn primary_key_falls_back_to_id() {
    let fields = vec![field("id", "Uuid", vec![]), field("name", "String", vec![])];
    assert_eq!(primary_key_of(&fields), "id");
    let marked = vec![field("code", "String", vec![attr("primary_key", None)])];
    assert_eq!(primary_key_of(&marked), "code");
}

#[test]
fn integer_fields_default_to_zero() {
    let descriptor = derive_schema(&sample_model(), &registry());
    let version = &descriptor.columns[2];
    assert_eq!(version.default_value().map(|s| s.as_str()), Some("0"));
    assert_eq!(
        version.field_definition("id", Dialect::MySql),
        "version BIGINT DEFAULT 0"
    );
}

#[test]
fn reference_resolves_to_table_and_primary_key() {
    let descriptor = derive_schema(&sample_model(), &registry());
    let owner = &descriptor.columns[3];
    let reference = owner.reference.as_ref().expect("resolved reference");
    assert_eq!(reference.table, "users");
    assert_eq!(reference.column, "id");
}

#[test]
fn max_length_sets_the_column_type() {
    let descriptor = derive_schema(&sample_model(), &registry());
    let name = &descriptor.columns[1];
    assert_eq!(name.column_type(Dialect::MySql), "VARCHAR(32)");
    assert_eq!(
        name.field_definition("id", Dialect::MySql),
        "name VARCHAR(32) NOT NULL"
    );
}

#[test]
fn malformed_attribute_literal_degrades_to_string() {
    let f = field(
        "weight",
        "String",
        vec![
            attr("scale", Some("12x")),
            attr("rank", Some("42")),
            attr("visible", Some("true")),
            attr("tagged", None),
        ],
    );
    let column = derive_column(&f, "id", &Vec::new()).unwrap();
    let extra = &column.extra;
    assert_eq!(extra.get("scale"), Some(&JsonValue::Text("12x".to_string())));
    assert_eq!(extra.get("rank"), Some(&JsonValue::Int(42)));
    assert_eq!(extra.get("visible"), Some(&JsonValue::Bool(true)));
    assert_eq!(extra.get("tagged"), Some(&JsonValue::Bool(true)));
}

#[test]
fn ignored_field_derives_no_column() {
    let f = field("scratch", "String", vec![attr("ignore", None)]);
    assert!(derive_column(&f, "id", &Vec::new()).is_none());
}

#[test]
fn primary_key_column_is_marked_and_not_null() {
    let f = field("id", "Uuid", vec![attr("primary_key", None)]);
    let column = derive_column(&f, "id", &Vec::new()).unwrap();
    assert!(column.is_not_null());
    assert_eq!(column.extra.get("primary_key"), Some(&JsonValue::Bool(true)));
}

#[test]
fn schema_document_round_trips_column_order() {
    let descriptor = derive_schema(&sample_model(), &registry());
    let document = descriptor.record_schema();
    assert_eq!(document.name, "UserProfile");
    assert_eq!(document.namespace.as_deref(), Some("app.models"));
    for (index, field_schema) in document.fields.iter().enumerate() {
        assert_eq!(field_schema.position, index);
    }
    let order = document.column_order().expect("every position present");
    let names: Vec<String> =
        descriptor.columns.iter().map(|c| c.name().to_string()).collect();
    assert_eq!(order, names);
}

#[test]
fn secret_key_material_prefers_the_configured_checksum() {
    let checksum = "0123456789abcdef0123456789abcdef";
    let fallback = vec![7u8; 32];
    let chosen = init(Some(checksum), &fallback);
    assert_eq!(chosen, checksum.as_bytes());

    assert_eq!(init(Some("too short"), &fallback), fallback);
    assert_eq!(init(None, &fallback), fallback);
}

#[test]
fn secret_key_material_counts_checksum_length_in_bytes() {
    let fallback = vec![7u8; 32];
    // 20 characters but 40 bytes: long enough by bytes, and the chosen
    // material is the byte prefix, as the original read it.
    let checksum = "èèèèèèèèèèèèèèèèèèèè";
    assert_eq!(checksum.len(), 40);
    let chosen = init(Some(checksum), &fallback);
    assert_eq!(chosen, &checksum.as_bytes()[..32]);

    // 31 bytes is short by bytes, whatever the character count.
    let short = "0123456789012345678901234567890";
    assert_eq!(short.len(), 31);
    assert_eq!(init(Some(short), &fallback), fallback);
}

#[test]
fn application_key_joins_name_and_version() {
    assert_eq!(app_key("zino", "1.2.3"), "zino@1.2.3");
}
