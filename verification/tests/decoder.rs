use zino_orm::columnar::{
    ColumnValues, DataType, FieldDescriptor, collect_values_from_avro_records,
    try_from_avro_record_entry,
};
use zino_orm::meta::{Attr, FieldDeclaration};
use zino_orm::row::{
    DatabaseRow, DecodeErrorKind, RowColumn, ValueKind, column_kind, decode_model, decode_row,
};
use zino_orm::value::{JsonValue, Record};

fn row(columns: Vec<(&str, &str, JsonValue)>) -> DatabaseRow {
    DatabaseRow {
        columns: columns
            .into_iter()
            .map(|(name, declared_type, raw)| RowColumn {
                name: name.to_string(),
                declared_type: declared_type.to_string(),
                raw,
            })
            .collect(),
    }
}

#[test]
fn dispatch_table_is_exact_and_case_sensitive() {
    assert_eq!(column_kind("BOOL"), ValueKind::Bool);
    assert_eq!(column_kind("BOOLEAN"), ValueKind::Bool);
    assert_eq!(column_kind("DOUBLE PRECISION"), ValueKind::Float);
    assert_eq!(column_kind("NUMERIC"), ValueKind::Float);
    assert_eq!(column_kind("REAL"), ValueKind::Float);
    assert_eq!(column_kind("BIGINT"), ValueKind::Int);
    assert_eq!(column_kind("TINYINT UNSIGNED"), ValueKind::Int);
    assert_eq!(column_kind("SMALLSERIAL"), ValueKind::Int);
    assert_eq!(column_kind("UUID"), ValueKind::Text);
    assert_eq!(column_kind("JSONB"), ValueKind::Text);
    assert_eq!(column_kind("boolean"), ValueKind::Text);
    assert_eq!(column_kind(""), ValueKind::Text);
}

#[test]
fn null_decodes_to_null_whatever_the_declared_type() {
    let r = row(vec![("flag", "BOOLEAN", JsonValue::Null)]);
    let record = decode_row(&r).unwrap();
    assert_eq!(record.entries.len(), 1);
    assert_eq!(record.entries[0].0, "flag");
    assert_eq!(record.entries[0].1, JsonValue::Null);
}

#[test]
fn decodes_each_kind_by_reported_type() {
    let r = row(vec![
        ("ok", "BOOL", JsonValue::Bool(true)),
        ("count", "BIGINT", JsonValue::Int(7)),
        ("ratio", "FLOAT8", JsonValue::Float(4614253070214989087u64)),
        ("name", "TEXT", JsonValue::Text("zero".to_string())),
    ]);
    let record = decode_row(&r).unwrap();
    assert_eq!(record.entries[0].1, JsonValue::Bool(true));
    assert_eq!(record.entries[1].1, JsonValue::Int(7));
    assert_eq!(record.entries[2].1, JsonValue::Float(4614253070214989087u64));
    assert_eq!(record.entries[3].1, JsonValue::Text("zero".to_string()));
}

#[test]
fn mismatched_raw_value_fails_naming_the_column() {
    let r = row(vec![
        ("ok", "BOOL", JsonValue::Bool(true)),
        ("count", "BIGINT", JsonValue::Text("seven".to_string())),
    ]);
    let err = decode_row(&r).unwrap_err();
    assert_eq!(err.column, "count");
    assert_eq!(err.kind, DecodeErrorKind::TypeMismatch);
}

#[test]
fn bigint_decodes_into_unsigned_with_range_check() {
    let r = row(vec![("edition", "BIGINT", JsonValue::Int(42))]);
    assert_eq!(r.decode_u32("edition").unwrap(), 42u32);

    let negative = row(vec![("edition", "BIGINT", JsonValue::Int(-1))]);
    let err = negative.decode_u32("edition").unwrap_err();
    assert_eq!(err.column, "edition");
    assert_eq!(err.kind, DecodeErrorKind::OutOfRange);
}

#[test]
fn unsigned_narrowing_bounds() {
    let too_big = row(vec![("n", "BIGINT", JsonValue::Int(70000))]);
    assert_eq!(too_big.decode_u16("n").unwrap_err().kind, DecodeErrorKind::OutOfRange);
    assert_eq!(too_big.decode_u32("n").unwrap(), 70000u32);
    assert_eq!(too_big.decode_u64("n").unwrap(), 70000u64);
    let negative = row(vec![("n", "BIGINT", JsonValue::Int(-1))]);
    assert_eq!(negative.decode_u64("n").unwrap_err().kind, DecodeErrorKind::OutOfRange);
    assert_eq!(negative.decode_i64("n").unwrap(), -1);
    let missing = row(vec![]);
    assert_eq!(missing.decode_u64("n").unwrap_err().kind, DecodeErrorKind::MissingColumn);
    let text = row(vec![("n", "TEXT", JsonValue::Text("seven".to_string()))]);
    let err = text.decode_i64("n").unwrap_err();
    assert_eq!(err.column, "n");
    assert_eq!(err.kind, DecodeErrorKind::TypeMismatch);
}

fn record(entries: Vec<(&str, JsonValue)>) -> Record {
    Record {
        entries: entries.into_iter().map(|(k, v)| (k.to_string(), v)).collect(),
    }
}

#[test]
fn derives_column_descriptor_from_record_entry() {
    let d = try_from_avro_record_entry("age", &JsonValue::Int(3)).unwrap();
    assert_eq!(d.name, "age");
    assert_eq!(d.data_type, DataType::Int64);
    assert!(d.nullable);
    let err = try_from_avro_record_entry("gone", &JsonValue::Null).unwrap_err();
    assert_eq!(err, "fail to construct an Arrow field for the `gone` field");
}

#[test]
fn collects_booleans_with_missing_values_as_null() {
    let records = vec![
        record(vec![("ok", JsonValue::Bool(true))]),
        record(vec![("other", JsonValue::Int(1))]),
        record(vec![("ok", JsonValue::Bool(false))]),
    ];
    let descriptor = FieldDescriptor {
        name: "ok".to_string(),
        data_type: DataType::Boolean,
        nullable: true,
    };
    match collect_values_from_avro_records(&descriptor, &records) {
        ColumnValues::Booleans(values) => {
            assert_eq!(values, vec![Some(true), None, Some(false)]);
        },
        _ => panic!("expected a boolean column"),
    }
}

#[test]
fn collects_narrowed_unsigned_values() {
    let records = vec![
        record(vec![("n", JsonValue::Int(70000))]),
        record(vec![("n", JsonValue::Int(3))]),
        record(vec![("n", JsonValue::Int(-1))]),
    ];
    let descriptor = FieldDescriptor {
        name: "n".to_string(),
        data_type: DataType::UInt16,
        nullable: true,
    };
    match collect_values_from_avro_records(&descriptor, &records) {
        ColumnValues::UInt16s(values) => {
            assert_eq!(values, vec![None, Some(3u16), None]);
        },
        _ => panic!("expected an unsigned column"),
    }
}

#[test]
fn collects_strings() {
    let records = vec![
        record(vec![("s", JsonValue::Text("a".to_string()))]),
        record(vec![]),
    ];
    let descriptor = FieldDescriptor {
        name: "s".to_string(),
        data_type: DataType::Utf8,
        nullable: true,
    };
    match collect_values_from_avro_records(&descriptor, &records) {
        ColumnValues::Utf8s(values) => {
            assert_eq!(values, vec![Some("a".to_string()), None]);
        },
        _ => panic!("expected a text column"),
    }
}

fn decl(name: &str, field_type: &str, attrs: Vec<(&str, Option<&str>)>) -> FieldDeclaration {
    FieldDeclaration {
        name: name.to_string(),
        field_type: field_type.to_string(),
        attrs: attrs
            .into_iter()
            .map(|(k, v)| Attr { key: k.to_string(), value: v.map(|s| s.to_string()) })
            .collect(),
    }
}

#[test]
fn typed_decode_narrows_unsigned_fields() {
    let fields = vec![
        decl("name", "String", vec![]),
        decl("edition", "u32", vec![]),
        decl("secret", "String", vec![("write_only", None)]),
    ];
    let r = row(vec![
        ("name", "TEXT", JsonValue::Text("zero".to_string())),
        ("edition", "BIGINT", JsonValue::Int(42)),
        ("secret", "TEXT", JsonValue::Text("hidden".to_string())),
    ]);
    let record = decode_model(&fields, &r).unwrap();
    assert_eq!(record.entries.len(), 2);
    assert_eq!(record.entries[0].1, JsonValue::Text("zero".to_string()));
    assert_eq!(record.entries[1].1, JsonValue::Int(42));
}

#[test]
fn typed_decode_fails_on_lossy_narrowing() {
    let fields = vec![decl("edition", "u32", vec![])];
    let r = row(vec![("edition", "BIGINT", JsonValue::Int(-1))]);
    let err = decode_model(&fields, &r).unwrap_err();
    assert_eq!(err.column, "edition");
    assert_eq!(err.kind, DecodeErrorKind::OutOfRange);
}

#[test]
fn typed_decode_requires_every_declared_column() {
    let fields = vec![decl("name", "String", vec![])];
    let r = row(vec![]);
    let err = decode_model(&fields, &r).unwrap_err();
    assert_eq!(err.kind, DecodeErrorKind::MissingColumn);
}
