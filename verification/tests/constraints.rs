use zino_orm::constraint::{
    CheckAnswer, Constraint, FieldValue, FieldValues, UniqueKind, check_constraints,
    derive_constraints, has_duplicates, parse_unique_on,
};
use zino_orm::meta::{Attr, FieldDeclaration, ModelDeclaration};
use zino_orm::model_map::read_map;
use zino_orm::value::JsonValue;

fn attr(key: &str, value: Option<&str>) -> Attr {
    Attr { key: key.to_string(), value: value.map(|v| v.to_string()) }
}

fn field(name: &str, field_type: &str, attrs: Vec<Attr>) -> FieldDeclaration {
    FieldDeclaration { name: name.to_string(), field_type: field_type.to_string(), attrs }
}

fn values(entries: Vec<(&str, FieldValue)>) -> FieldValues {
    FieldValues {
        entries: entries.into_iter().map(|(k, v)| (k.to_string(), v)).collect(),
    }
}

fn text(s: &str) -> FieldValue {
    FieldValue::Scalar(JsonValue::Text(s.to_string()))
}

#[test]
fn unique_on_parses_into_a_composite_constraint() {
    let constraint = parse_unique_on("a,b");
    match constraint {
        Constraint::CompositeUnique { fields, joined } => {
            assert_eq!(fields, vec!["a".to_string(), "b".to_string()]);
            assert_eq!(joined, "a_b");
        },
        _ => panic!("expected a composite constraint"),
    }
    match parse_unique_on("(first, second)") {
        Constraint::CompositeUnique { fields, joined } => {
            assert_eq!(fields, vec!["first".to_string(), "second".to_string()]);
            assert_eq!(joined, "first_second");
        },
        _ => panic!("expected a composite constraint"),
    }
}

#[test]
fn composite_unique_records_exactly_one_message() {
    let model = ModelDeclaration {
        name: "Pair".to_string(),
        namespace: "app".to_string(),
        attrs: vec![attr("unique_on", Some("a,b"))],
        fields: vec![field("a", "String", vec![]), field("b", "String", vec![])],
    };
    let constraints = derive_constraints(&model);
    assert_eq!(constraints.len(), 1);
    let vals = values(vec![("a", text("x")), ("b", text("y"))]);

    let failing =
        check_constraints("id", false, false, &constraints, &vals, &vec![CheckAnswer::Holds(
            false,
        )]);
    assert_eq!(failing.len(), 1);
    assert_eq!(failing.entries[0].0, "a_b");
    assert_eq!(failing.entries[0].1, "the composite values should be unique");

    let passing =
        check_constraints("id", false, false, &constraints, &vals, &vec![CheckAnswer::Holds(
            true,
        )]);
    assert!(passing.is_empty());
}

#[test]
fn reference_list_records_one_message_for_missing_ids() {
    let constraints = vec![Constraint::ReferenceList { field: "friends".to_string() }];
    let three = values(vec![(
        "friends",
        FieldValue::List(vec![
            JsonValue::Text("a".to_string()),
            JsonValue::Text("b".to_string()),
            JsonValue::Text("c".to_string()),
        ]),
    )]);
    let v = check_constraints("id", false, false, &constraints, &three, &vec![
        CheckAnswer::Found(2),
    ]);
    assert_eq!(v.len(), 1);
    assert_eq!(v.entries[0].0, "friends");
    assert_eq!(v.entries[0].1, "there are nonexistent values");

    let all_found = check_constraints("id", false, false, &constraints, &three, &vec![
        CheckAnswer::Found(3),
    ]);
    assert!(all_found.is_empty());

    let empty = values(vec![("friends", FieldValue::List(vec![]))]);
    let vacuous = check_constraints("id", false, false, &constraints, &empty, &Vec::new());
    assert!(vacuous.is_empty());
}

#[test]
fn single_reference_requires_exactly_one_row() {
    let constraints =
        vec![Constraint::ReferenceSingle { field: "owner_id".to_string(), optional: false }];
    let vals = values(vec![("owner_id", text("u1"))]);
    let missing = check_constraints("id", false, false, &constraints, &vals, &vec![
        CheckAnswer::Found(0),
    ]);
    assert_eq!(missing.len(), 1);
    assert_eq!(missing.entries[0].1, "it is a nonexistent value");
    let found = check_constraints("id", false, false, &constraints, &vals, &vec![
        CheckAnswer::Found(1),
    ]);
    assert!(found.is_empty());
}

#[test]
fn unique_check_interpolates_the_value() {
    let constraints =
        vec![Constraint::Unique { field: "slug".to_string(), kind: UniqueKind::Text }];
    let vals = values(vec![("slug", text("dup"))]);
    let v = check_constraints("id", false, false, &constraints, &vals, &vec![
        CheckAnswer::Holds(false),
    ]);
    assert_eq!(v.entries[0].1, "the value `dup` is not unique");

    let empty_value = values(vec![("slug", text(""))]);
    let skipped =
        check_constraints("id", false, false, &constraints, &empty_value, &Vec::new());
    assert!(skipped.is_empty());
}

#[test]
fn length_checks_format_the_bound() {
    let constraints = vec![
        Constraint::ExactLength { field: "code".to_string(), length: 4 },
        Constraint::MaxLength { field: "code".to_string(), length: 2 },
        Constraint::MinLength { field: "code".to_string(), length: 10 },
    ];
    let vals = values(vec![("code", text("abc"))]);
    let v = check_constraints("id", false, false, &constraints, &vals, &Vec::new());
    assert_eq!(v.entries[0].1, "the length should be 4");
    assert_eq!(v.entries[1].1, "the length should be at most 2");
    assert_eq!(v.entries[2].1, "the length should be at least 10");
}

#[test]
fn unique_items_detects_duplicates() {
    let duplicated = vec![
        JsonValue::Text("a".to_string()),
        JsonValue::Text("b".to_string()),
        JsonValue::Text("a".to_string()),
    ];
    assert!(has_duplicates(&duplicated));
    let constraints = vec![Constraint::UniqueItems { field: "tags".to_string() }];
    let vals = values(vec![("tags", FieldValue::List(duplicated))]);
    let v = check_constraints("id", false, false, &constraints, &vals, &Vec::new());
    assert_eq!(v.entries[0].1, "array items should be unique");
}

#[test]
fn not_null_checks_emptiness_and_nil() {
    let constraints = vec![
        Constraint::NotNullText { field: "name".to_string() },
        Constraint::NotNullId { field: "owner".to_string() },
    ];
    let vals = values(vec![
        ("name", text("")),
        ("owner", text("00000000-0000-0000-0000-000000000000")),
    ]);
    let v = check_constraints("id", false, false, &constraints, &vals, &Vec::new());
    assert_eq!(v.entries[0].1, "it should be nonempty");
    assert_eq!(v.entries[1].1, "it should not be nil");
}

#[test]
fn default_primary_key_is_rejected_unless_auto_increment() {
    let v = check_constraints("id", true, false, &Vec::new(), &values(vec![]), &Vec::new());
    assert_eq!(v.len(), 1);
    assert_eq!(v.entries[0].0, "id");
    assert_eq!(v.entries[0].1, "should not be a default value");
    let auto =
        check_constraints("id", true, true, &Vec::new(), &values(vec![]), &Vec::new());
    assert!(auto.is_empty());
}

#[test]
fn read_map_rejects_an_empty_map() {
    let fields = vec![field("name", "String", vec![])];
    let mut model = values(vec![]);
    let data = values(vec![]);
    let v = read_map(&fields, &data, &mut model);
    assert_eq!(v.entries[0].0, "data");
    assert_eq!(v.entries[0].1, "should be nonempty");
    assert!(model.entries.is_empty());
}

#[test]
fn read_map_sets_and_parses_values() {
    let fields = vec![
        field("name", "String", vec![]),
        field("count", "u32", vec![]),
        field("locked", "bool", vec![]),
        field("rank", "u64", vec![]),
    ];
    let data = values(vec![
        ("name", text("zero")),
        ("count", FieldValue::Scalar(JsonValue::Int(-1))),
        ("locked", text("true")),
        ("rank", text("12")),
    ]);
    let mut model = values(vec![]);
    let v = read_map(&fields, &data, &mut model);
    assert_eq!(v.len(), 1);
    assert_eq!(v.entries[0].0, "count");
    assert_eq!(v.entries[0].1, "fail to parse the value: ``");
    assert_eq!(model.entries.len(), 3);
    assert_eq!(model.entries[0].0, "name");
    assert_eq!(model.entries[1].0, "locked");
    assert_eq!(model.entries[2].0, "rank");
    match &model.entries[2].1 {
        FieldValue::Scalar(JsonValue::Int(n)) => assert_eq!(*n, 12),
        _ => panic!("expected a parsed integer"),
    }
}

#[test]
fn read_map_never_sets_read_only_or_reserved_fields() {
    let fields = vec![
        field("token", "String", vec![attr("read_only", None)]),
        field("version", "u64", vec![]),
        field("updated_at", "DateTime", vec![]),
    ];
    let data = values(vec![
        ("token", text("sneaky")),
        ("updated_at", text("2020-01-01")),
    ]);
    let mut model = values(vec![]);
    let v = read_map(&fields, &data, &mut model);
    assert!(v.is_empty());
    assert!(model.entries.is_empty());
}
