use zino_orm::accessor::{
    AccessorRole, accessor_role, build_snapshot, group_references, mapping_accessor,
    snapshot_fields, user_id_accessor,
};
use zino_orm::meta::{Attr, FieldDeclaration};
use zino_orm::pool::{
    AcquireDecision, ConnectionPool, DdlOutcome, DdlStep, PoolCell, PoolRole,
    acquire_decision, complete_acquisition,
};
use zino_orm::value::{JsonValue, Record};

#[test]
fn a_fresh_cell_requires_initialization() {
    let cell = PoolCell::new();
    match acquire_decision(&cell) {
        AcquireDecision::Initialize => {},
        AcquireDecision::Cached(_) => panic!("a fresh cell holds nothing"),
    }
}

#[test]
fn racing_acquisitions_converge_on_the_first_published_handle() {
    let mut cell = PoolCell::new();
    let mut first = ConnectionPool { id: 11, available: true };
    let handle = complete_acquisition(
        &mut cell,
        &mut first,
        "user",
        PoolRole::Reader,
        &DdlOutcome::Success,
    )
    .unwrap();
    assert_eq!(handle, 11);

    // Late finishers discard their own pools and read the winner's.
    for late_id in [12u64, 13, 14] {
        let mut late = ConnectionPool { id: late_id, available: true };
        let handle = complete_acquisition(
            &mut cell,
            &mut late,
            "user",
            PoolRole::Reader,
            &DdlOutcome::Success,
        )
        .unwrap();
        assert_eq!(handle, 11);
    }
    match acquire_decision(&cell) {
        AcquireDecision::Cached(h) => assert_eq!(h, 11),
        AcquireDecision::Initialize => panic!("the cell was published"),
    }
}

#[test]
fn a_failed_setup_marks_the_pool_unavailable_and_caches_nothing() {
    let mut cell = PoolCell::new();
    let mut pool = ConnectionPool { id: 3, available: true };
    let outcome = DdlOutcome::Failed(DdlStep::SynchronizeSchema, "column clash".to_string());
    let err = complete_acquisition(&mut cell, &mut pool, "tag", PoolRole::Writer, &outcome)
        .unwrap_err();
    assert!(!pool.available);
    assert!(cell.get().is_none());
    assert_eq!(err.model_name, "tag");
    assert_eq!(err.role, PoolRole::Writer);
    assert_eq!(err.cause, "column clash");
    assert_eq!(
        err.message(),
        "503 Service Unavailable: fail to acquire writer for the model `tag`: column clash"
    );
}

fn attr(key: &str, value: Option<&str>) -> Attr {
    Attr { key: key.to_string(), value: value.map(|v| v.to_string()) }
}

fn field(name: &str, field_type: &str, attrs: Vec<Attr>) -> FieldDeclaration {
    FieldDeclaration { name: name.to_string(), field_type: field_type.to_string(), attrs }
}

#[test]
fn canonical_accessor_roles() {
    assert_eq!(accessor_role("name", "String"), AccessorRole::StrView);
    assert_eq!(accessor_role("status", "String"), AccessorRole::StrView);
    assert_eq!(accessor_role("content", "Map"), AccessorRole::OptionalMapping);
    assert_eq!(accessor_role("content", "String"), AccessorRole::NoRole);
    assert_eq!(accessor_role("owner_id", "Uuid"), AccessorRole::OptionalUserId);
    assert_eq!(accessor_role("created_at", "DateTime"), AccessorRole::Timestamp);
    assert_eq!(accessor_role("version", "u64"), AccessorRole::UnsignedVersion);
    assert_eq!(accessor_role("version", "u32"), AccessorRole::NoRole);
    assert_eq!(accessor_role("edition", "u32"), AccessorRole::UnsignedEdition);
}

#[test]
fn optional_accessors_treat_empty_and_default_as_absent() {
    let empty = Record { entries: vec![] };
    assert!(mapping_accessor(&empty).is_none());
    let filled = Record {
        entries: vec![("k".to_string(), JsonValue::Bool(true))],
    };
    assert!(mapping_accessor(&filled).is_some());

    let nil = "00000000-0000-0000-0000-000000000000".to_string();
    let id = "7a6b1d88-0000-0000-0000-000000000001".to_string();
    assert!(user_id_accessor(&nil, &nil).is_none());
    assert_eq!(user_id_accessor(&id, &nil), Some(&id));
}

#[test]
fn snapshot_field_list_covers_tags_and_bookkeeping() {
    let fields = vec![
        field("id", "Uuid", vec![attr("primary_key", None)]),
        field("name", "String", vec![]),
        field("summary", "String", vec![attr("snapshot", None)]),
        field("updated_at", "DateTime", vec![]),
        field("version", "u64", vec![]),
        field("edition", "u32", vec![]),
    ];
    let list = snapshot_fields(&fields, "id");
    assert_eq!(list, vec!["name", "summary", "updated_at", "version"]);
}

#[test]
fn snapshot_copies_the_reduced_field_set() {
    let record = Record {
        entries: vec![
            ("id".to_string(), JsonValue::Text("u1".to_string())),
            ("name".to_string(), JsonValue::Text("zero".to_string())),
            ("version".to_string(), JsonValue::Int(4)),
            ("hidden".to_string(), JsonValue::Bool(true)),
        ],
    };
    let fields = vec!["name".to_string(), "version".to_string(), "missing".to_string()];
    let snapshot = build_snapshot("id", &record, &fields);
    assert_eq!(snapshot.entries.len(), 4);
    assert_eq!(snapshot.entries[0].0, "id");
    assert_eq!(snapshot.entries[0].1, JsonValue::Text("u1".to_string()));
    assert_eq!(snapshot.entries[1].1, JsonValue::Text("zero".to_string()));
    assert_eq!(snapshot.entries[2].1, JsonValue::Int(4));
    assert_eq!(snapshot.entries[3].1, JsonValue::Null);
}

#[test]
fn populate_plan_groups_reference_fields_by_model() {
    let fields = vec![
        field("owner_id", "Uuid", vec![attr("reference", Some("User"))]),
        field("tag_id", "Uuid", vec![attr("reference", Some("Tag"))]),
        field("maintainer_id", "Uuid", vec![attr("reference", Some("User"))]),
        field("plain", "String", vec![]),
    ];
    let groups = group_references(&fields);
    assert_eq!(groups.len(), 2);
    assert_eq!(groups[0].0, "User");
    assert_eq!(groups[0].1, vec!["owner_id", "maintainer_id"]);
    assert_eq!(groups[1].0, "Tag");
    assert_eq!(groups[1].1, vec!["tag_id"]);
}
