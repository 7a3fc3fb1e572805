use zino_orm::column::Column;
use zino_orm::dialect::Dialect;
use zino_orm::value::JsonValue;

fn column(name: &str, field_type: &str, not_null: bool) -> Column {
    Column::new(name.to_string(), field_type.to_string(), not_null)
}

#[test]
fn renders_primary_key_definition() {
    let c = column("id", "Uuid", true);
    let rendered = c.field_definition("id", Dialect::Postgres);
    assert_eq!(rendered, "id UUID PRIMARY KEY NOT NULL");
}

#[test]
fn renders_literal_default() {
    let mut c = column("status", "String", true);
    c.set_default_value("active".to_string());
    let rendered = c.field_definition("id", Dialect::MySql);
    assert_eq!(rendered, "status TEXT DEFAULT active");
}

#[test]
fn sqlite_parenthesizes_expression_defaults() {
    let mut c = column("created", "DateTime", true);
    c.set_default_value("now()".to_string());
    assert_eq!(
        c.field_definition("id", Dialect::Sqlite),
        "created TIMESTAMPTZ DEFAULT (now())"
    );
    assert_eq!(
        c.field_definition("id", Dialect::MySql),
        "created TIMESTAMPTZ DEFAULT now()"
    );
}

#[test]
fn auto_increment_never_renders_default_clause() {
    let mut c = column("seq", "i64", true);
    c.set_default_value("auto_increment".to_string());
    assert_eq!(c.field_definition("id", Dialect::MySql), "seq BIGINT AUTO_INCREMENT");
    assert_eq!(c.field_definition("id", Dialect::Tidb), "seq BIGINT AUTO_INCREMENT");
    for dialect in [Dialect::MySql, Dialect::Postgres, Dialect::Sqlite, Dialect::Tidb] {
        let rendered = c.field_definition("id", dialect);
        assert!(!rendered.contains("DEFAULT"), "{rendered}");
    }
    assert_eq!(c.field_definition("id", Dialect::Postgres), "seq BIGINT");
    assert_eq!(c.field_definition("id", Dialect::Sqlite), "seq BIGINT");
}

#[test]
fn auto_random_only_on_tidb() {
    let mut c = column("id", "u64", true);
    c.set_default_value("auto_random".to_string());
    assert_eq!(c.field_definition("id", Dialect::Tidb), "id BIGINT PRIMARY KEY AUTO_RANDOM");
    assert_eq!(c.field_definition("id", Dialect::MySql), "id BIGINT PRIMARY KEY");
}

#[test]
fn column_name_extra_attribute_overrides_rendered_name() {
    let mut c = column("kind", "String", true);
    c.set_extra_attribute(
        "column_name".to_string(),
        JsonValue::Text("type".to_string()),
    );
    assert_eq!(c.field_definition("id", Dialect::MySql), "type TEXT NOT NULL");
}

#[test]
fn column_type_extra_attribute_overrides_sql_type() {
    let mut c = column("name", "String", true);
    c.set_extra_attribute(
        "column_type".to_string(),
        JsonValue::Text("VARCHAR(32)".to_string()),
    );
    assert_eq!(c.field_definition("id", Dialect::MySql), "name VARCHAR(32) NOT NULL");
}

#[test]
fn type_annotation_is_empty_off_postgres() {
    for field_type in ["Uuid", "u64", "i32", "String", "Map", "DateTime"] {
        let c = column("f", field_type, false);
        assert_eq!(c.type_annotation(Dialect::MySql), "");
        assert_eq!(c.type_annotation(Dialect::Sqlite), "");
        assert_eq!(c.type_annotation(Dialect::Tidb), "");
    }
}

#[test]
fn type_annotation_casts_on_postgres() {
    assert_eq!(column("a", "Uuid", false).type_annotation(Dialect::Postgres), "::UUID");
    assert_eq!(column("b", "u64", false).type_annotation(Dialect::Postgres), "::BIGINT");
    assert_eq!(column("c", "i32", false).type_annotation(Dialect::Postgres), "::INT");
    assert_eq!(column("d", "u16", false).type_annotation(Dialect::Postgres), "::SMALLINT");
    assert_eq!(column("e", "String", false).type_annotation(Dialect::Postgres), "::TEXT");
    assert_eq!(column("f", "Map", false).type_annotation(Dialect::Postgres), "::TEXT");
}

#[test]
fn mapping_types_store_as_jsonb_only_on_postgres() {
    let c = column("extra", "Map", false);
    assert_eq!(c.column_type(Dialect::Postgres), "JSONB");
    assert_eq!(c.column_type(Dialect::MySql), "JSON");
    let v = column("tags", "Vec<String>", false);
    assert_eq!(v.column_type(Dialect::Postgres), "JSONB");
    assert_eq!(v.column_type(Dialect::Sqlite), "JSON");
}
