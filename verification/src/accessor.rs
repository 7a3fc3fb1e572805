//! Field accessor semantics: the canonical roles certain field names
//! (or aliases) expose, the reduced snapshot field set used for audit
//! capture, and the populate plan that groups reference fields by the
//! model they point at.

use vstd::prelude::*;
use crate::meta::{Attr, AttrView, FieldDeclaration, FieldDeclarationView};
use crate::strutil::str_eq;
use crate::value::{JsonValue, Record, ValueView, spec_lookup};

verus! {

/// The canonical accessor role of a field, keyed on its alias or name
/// and gated on its declared type.
#[derive(Clone, Copy, Debug, PartialEq, Eq, Structural)]
pub enum AccessorRole {
    /// `name`, `status`, `namespace`, `visibility`, `description`:
    /// expose a string view.
    StrView,
    /// `content` or `extra` of mapping type: expose the mapping only
    /// when it is nonempty.
    OptionalMapping,
    /// `owner_id` or `maintainer_id`: expose the identifier, treating
    /// the default value as absent.
    OptionalUserId,
    /// `created_at` or `updated_at` of timestamp type: expose the raw
    /// timestamp.
    Timestamp,
    /// `version` as an unsigned 64-bit integer: expose the raw value.
    UnsignedVersion,
    /// `edition` as an unsigned 32-bit integer: expose the raw value.
    UnsignedEdition,
    /// No canonical role.
    NoRole,
}

/// The canonical accessor role, keyed on the field's alias or name.
pub open spec fn spec_accessor_role(name: Seq<char>, field_type: Seq<char>) -> AccessorRole {
    if name == "name"@ || name == "status"@ || name == "namespace"@ || name == "visibility"@
        || name == "description"@ {
        AccessorRole::StrView
    } else if (name == "content"@ || name == "extra"@) && field_type == "Map"@ {
        AccessorRole::OptionalMapping
    } else if name == "owner_id"@ || name == "maintainer_id"@ {
        AccessorRole::OptionalUserId
    } else if (name == "created_at"@ || name == "updated_at"@) && field_type == "DateTime"@ {
        AccessorRole::Timestamp
    } else if name == "version"@ && field_type == "u64"@ {
        AccessorRole::UnsignedVersion
    } else if name == "edition"@ && field_type == "u32"@ {
        AccessorRole::UnsignedEdition
    } else {
        AccessorRole::NoRole
    }
}

/// The canonical accessor role of a field.
pub fn accessor_role(name: &str, field_type: &str) -> (r: AccessorRole)
    ensures
        r == spec_accessor_role(name@, field_type@),
{
    if str_eq(name, "name") || str_eq(name, "status") || str_eq(name, "namespace") || str_eq(
        name,
        "visibility",
    ) || str_eq(name, "description") {
        AccessorRole::StrView
    } else if (str_eq(name, "content") || str_eq(name, "extra")) && str_eq(field_type, "Map") {
        AccessorRole::OptionalMapping
    } else if str_eq(name, "owner_id") || str_eq(name, "maintainer_id") {
        AccessorRole::OptionalUserId
    } else if (str_eq(name, "created_at") || str_eq(name, "updated_at")) && str_eq(
        field_type,
        "DateTime",
    ) {
        AccessorRole::Timestamp
    } else if str_eq(name, "version") && str_eq(field_type, "u64") {
        AccessorRole::UnsignedVersion
    } else if str_eq(name, "edition") && str_eq(field_type, "u32") {
        AccessorRole::UnsignedEdition
    } else {
        AccessorRole::NoRole
    }
}

/// The mapping accessor: a mapping field is exposed only when nonempty.
pub fn mapping_accessor<'a>(mapping: &'a Record) -> (r: Option<&'a Record>)
    ensures
        match r {
            Some(m) => m@ == mapping@ && mapping@.len() > 0,
            None => mapping@.len() == 0,
        },
{
    if mapping.len() > 0 {
        Some(mapping)
    } else {
        None
    }
}

/// The user-identifier accessor: the default value reads as absent.
pub fn user_id_accessor<'a>(id: &'a String, default_id: &String) -> (r: Option<&'a String>)
    ensures
        match r {
            Some(v) => v@ == id@ && id@ != default_id@,
            None => id@ == default_id@,
        },
{
    if str_eq(id.as_str(), default_id.as_str()) {
        None
    } else {
        Some(id)
    }
}

/// Whether the field carries a `snapshot` attribute.
pub open spec fn spec_has_snapshot_attr(f: FieldDeclarationView) -> bool {
    exists|i: int| 0 <= i < f.attrs.len() && (#[trigger] f.attrs[i]).key == "snapshot"@
}

/// The alias a field exposes itself under, if any: the value of the
/// last `alias` attribute carrying one.
pub open spec fn spec_field_alias(attrs: Seq<AttrView>) -> Option<Seq<char>>
    decreases attrs.len(),
{
    if attrs.len() == 0 {
        None
    } else if attrs.last().key == "alias"@ && attrs.last().value is Some {
        attrs.last().value
    } else {
        spec_field_alias(attrs.drop_last())
    }
}

/// The snapshot entries one non-primary-key field contributes: its own
/// name for a `snapshot` attribute, then the role-derived entry — the
/// field name for `name` and `status`, the bookkeeping names for
/// `updated_at` and `version`.
pub open spec fn spec_snapshot_entries_of(f: FieldDeclarationView) -> Seq<Seq<char>> {
    let alias = match spec_field_alias(f.attrs) {
        Some(a) => a,
        None => f.name,
    };
    let from_attr: Seq<Seq<char>> = if spec_has_snapshot_attr(f) {
        seq![f.name]
    } else {
        Seq::<Seq<char>>::empty()
    };
    let from_role: Seq<Seq<char>> = if alias == "name"@ || alias == "status"@ {
        seq![f.name]
    } else if alias == "updated_at"@ && f.field_type == "DateTime"@ {
        seq!["updated_at"@]
    } else if alias == "version"@ && f.field_type == "u64"@ {
        seq!["version"@]
    } else {
        Seq::<Seq<char>>::empty()
    };
    from_attr + from_role
}

/// The snapshot field list of a model: what each non-primary-key field
/// contributes, in declaration order.
pub open spec fn spec_snapshot_fields(
    fields: Seq<FieldDeclarationView>,
    primary_key_name: Seq<char>,
) -> Seq<Seq<char>>
    decreases fields.len(),
{
    if fields.len() == 0 {
        Seq::<Seq<char>>::empty()
    } else {
        spec_snapshot_fields(fields.drop_last(), primary_key_name) + (
        if fields.last().name == primary_key_name {
            Seq::<Seq<char>>::empty()
        } else {
            spec_snapshot_entries_of(fields.last())
        })
    }
}

/// Whether the field carries a `snapshot` attribute.
fn has_snapshot_attr(f: &FieldDeclaration) -> (r: bool)
    ensures
        r == spec_has_snapshot_attr(f@),
{
    let n = f.attrs.len();
    let mut i: usize = 0;
    while i < n
        invariant
            n == f.attrs.len(),
            i <= n,
            forall|j: int| 0 <= j < i ==> (#[trigger] f@.attrs[j]).key != "snapshot"@,
        decreases n - i,
    {
        if str_eq(f.attrs[i].key.as_str(), "snapshot") {
            proof {
                assert(f@.attrs[i as int].key == "snapshot"@);
            }
            return true;
        }
        i += 1;
    }
    false
}

/// The alias a field exposes itself under, if any.
fn field_alias(f: &FieldDeclaration) -> (r: Option<String>)
    ensures
        match r {
            Some(v) => spec_field_alias(f@.attrs) == Some(v@),
            None => spec_field_alias(f@.attrs) is None,
        },
{
    let ghost av = f@.attrs;
    let n = f.attrs.len();
    let mut found: Option<String> = None;
    let mut i: usize = 0;
    while i < n
        invariant
            n == f.attrs.len(),
            av == f@.attrs,
            i <= n,
            match found {
                Some(ref v) => spec_field_alias(av.take(i as int)) == Some(v@),
                None => spec_field_alias(av.take(i as int)) is None,
            },
        decreases n - i,
    {
        proof {
            assert(av.take(i + 1).drop_last() =~= av.take(i as int));
            assert(av.take(i + 1).last() == av[i as int]);
        }
        if str_eq(f.attrs[i].key.as_str(), "alias") {
            match f.attrs[i].value {
                Some(ref v) => {
                    found = Some(v.clone());
                },
                None => {},
            }
        }
        i += 1;
    }
    proof {
        assert(av.take(n as int) =~= av);
    }
    found
}

/// The snapshot field list of a model: the fields tagged `snapshot`,
/// plus `name`- and `status`-role fields, plus the `updated_at` and
/// `version` bookkeeping fields when present — each non-primary-key
/// field contributing in declaration order.
pub fn snapshot_fields(fields: &Vec<FieldDeclaration>, primary_key_name: &str) -> (r: Vec<
    String,
>)
    ensures
        r@.map(|_i: int, s: String| s@) == spec_snapshot_fields(
            fields@.map(|_i: int, f: FieldDeclaration| f@),
            primary_key_name@,
        ),
{
    let ghost fv = fields@.map(|_i: int, f: FieldDeclaration| f@);
    let mut snapshot: Vec<String> = Vec::new();
    let n = fields.len();
    let mut i: usize = 0;
    while i < n
        invariant
            n == fields.len(),
            fv == fields@.map(|_i: int, f: FieldDeclaration| f@),
            i <= n,
            snapshot@.map(|_i: int, s: String| s@) == spec_snapshot_fields(
                fv.take(i as int),
                primary_key_name@,
            ),
        decreases n - i,
    {
        proof {
            assert(fv.take(i + 1).drop_last() =~= fv.take(i as int));
            assert(fv.take(i + 1).last() == fv[i as int]);
        }
        let field = &fields[i];
        let ghost before = snapshot@.map(|_i: int, s: String| s@);
        if !str_eq(field.name.as_str(), primary_key_name) {
            let ghost from_attr_added = spec_has_snapshot_attr(field@);
            if has_snapshot_attr(field) {
                snapshot.push(field.name.clone());
            }
            let ghost mid = snapshot@.map(|_i: int, s: String| s@);
            let alias = match field_alias(field) {
                Some(a) => a,
                None => field.name.clone(),
            };
            let a = alias.as_str();
            if str_eq(a, "name") || str_eq(a, "status") {
                snapshot.push(field.name.clone());
            } else if str_eq(a, "updated_at") && str_eq(field.field_type.as_str(), "DateTime") {
                snapshot.push(String::from_str("updated_at"));
            } else if str_eq(a, "version") && str_eq(field.field_type.as_str(), "u64") {
                snapshot.push(String::from_str("version"));
            }
            proof {
                assert(snapshot@.map(|_i: int, s: String| s@) =~= before
                    + spec_snapshot_entries_of(fv[i as int]));
            }
        }
        proof {
            assert(snapshot@.map(|_i: int, s: String| s@) =~= spec_snapshot_fields(
                fv.take(i + 1),
                primary_key_name@,
            ));
        }
        i += 1;
    }
    proof {
        assert(fv.take(n as int) =~= fv);
    }
    snapshot
}

/// Builds the snapshot mapping: the primary key first, then each
/// snapshot field's value out of the record, in snapshot-field order;
/// a field the record does not hold snapshots as null.
pub fn build_snapshot(
    primary_key_name: &str,
    record: &Record,
    fields: &Vec<String>,
) -> (r: Record)
    ensures
        r@.len() == 1 + fields@.len(),
        r@[0].0 == primary_key_name@,
        r@[0].1 == spec_snapshot_value(record@, primary_key_name@),
        forall|i: int|
            0 <= i < fields@.len() ==> (#[trigger] r@[i + 1]).0 == fields@[i]@ && r@[i + 1].1
                == spec_snapshot_value(record@, fields@[i]@),
{
    let mut snapshot = Record::new();
    snapshot.push(primary_key_name.to_owned(), snapshot_value(record, primary_key_name));
    let n = fields.len();
    let mut i: usize = 0;
    while i < n
        invariant
            n == fields.len(),
            i <= n,
            snapshot@.len() == 1 + i,
            snapshot@[0].0 == primary_key_name@,
            snapshot@[0].1 == spec_snapshot_value(record@, primary_key_name@),
            forall|j: int|
                0 <= j < i ==> (#[trigger] snapshot@[j + 1]).0 == fields@[j]@ && snapshot@[j
                    + 1].1 == spec_snapshot_value(record@, fields@[j]@),
        decreases n - i,
    {
        let name = fields[i].clone();
        snapshot.push(name, snapshot_value(record, fields[i].as_str()));
        i += 1;
    }
    snapshot
}

/// The value a field contributes to a snapshot: its record value, or
/// null when the record does not hold it.
pub open spec fn spec_snapshot_value(
    record: Seq<(Seq<char>, ValueView)>,
    name: Seq<char>,
) -> ValueView {
    match spec_lookup(record, name) {
        Some(v) => v,
        None => ValueView::Null,
    }
}

/// The value a field contributes to a snapshot.
fn snapshot_value(record: &Record, name: &str) -> (r: JsonValue)
    ensures
        r@ == spec_snapshot_value(record@, name@),
{
    match record.get(name) {
        Some(v) => v.duplicate(),
        None => JsonValue::Null,
    }
}

/// The view of an executable group list.
pub open spec fn spec_groups_view(groups: Seq<(String, Vec<String>)>) -> Seq<
    (Seq<char>, Seq<Seq<char>>),
> {
    groups.map(|_i: int, g: (String, Vec<String>)| (g.0@, g.1@.map(|_j: int, s: String| s@)))
}

/// The populate plan: reference fields grouped by the model they point
/// at, models in first-seen order, fields in declaration order.
pub open spec fn spec_group_references(fields: Seq<FieldDeclarationView>) -> Seq<
    (Seq<char>, Seq<Seq<char>>),
>
    decreases fields.len(),
{
    if fields.len() == 0 {
        Seq::<(Seq<char>, Seq<Seq<char>>)>::empty()
    } else {
        let groups = spec_group_references(fields.drop_last());
        match spec_reference_model(fields.last().attrs) {
            Some(model) => spec_add_group(groups, model, fields.last().name),
            None => groups,
        }
    }
}

/// The model the field's last `reference` attribute names, if any.
pub open spec fn spec_reference_model(attrs: Seq<AttrView>) -> Option<Seq<char>>
    decreases attrs.len(),
{
    if attrs.len() == 0 {
        None
    } else if attrs.last().key == "reference"@ && attrs.last().value is Some {
        attrs.last().value
    } else {
        spec_reference_model(attrs.drop_last())
    }
}

/// Appends a reference field to its model's group, creating the group
/// at the end on first sight of the model.
pub open spec fn spec_add_group(
    groups: Seq<(Seq<char>, Seq<Seq<char>>)>,
    model: Seq<char>,
    field: Seq<char>,
) -> Seq<(Seq<char>, Seq<Seq<char>>)>
    decreases groups.len(),
{
    if groups.len() == 0 {
        seq![(model, seq![field])]
    } else if groups[0].0 == model {
        seq![(model, groups[0].1.push(field))] + groups.drop_first()
    } else {
        seq![groups[0]] + spec_add_group(groups.drop_first(), model, field)
    }
}

/// The model the field's last `reference` attribute names, if any.
fn reference_model(f: &FieldDeclaration) -> (r: Option<String>)
    ensures
        match r {
            Some(v) => spec_reference_model(f@.attrs) == Some(v@),
            None => spec_reference_model(f@.attrs) is None,
        },
{
    let ghost av = f@.attrs;
    let n = f.attrs.len();
    let mut found: Option<String> = None;
    let mut i: usize = 0;
    while i < n
        invariant
            n == f.attrs.len(),
            av == f@.attrs,
            i <= n,
            match found {
                Some(ref v) => spec_reference_model(av.take(i as int)) == Some(v@),
                None => spec_reference_model(av.take(i as int)) is None,
            },
        decreases n - i,
    {
        proof {
            assert(av.take(i + 1).drop_last() =~= av.take(i as int));
            assert(av.take(i + 1).last() == av[i as int]);
        }
        if str_eq(f.attrs[i].key.as_str(), "reference") {
            match f.attrs[i].value {
                Some(ref v) => {
                    found = Some(v.clone());
                },
                None => {},
            }
        }
        i += 1;
    }
    proof {
        assert(av.take(n as int) =~= av);
    }
    found
}

/// The populate plan of a model: its reference fields grouped by the
/// model they point at, models in first-seen order, each group's
/// fields in declaration order.
pub fn group_references(fields: &Vec<FieldDeclaration>) -> (r: Vec<(String, Vec<String>)>)
    ensures
        spec_groups_view(r@) == spec_group_references(
            fields@.map(|_i: int, f: FieldDeclaration| f@),
        ),
{
    let ghost fv = fields@.map(|_i: int, f: FieldDeclaration| f@);
    let mut groups: Vec<(String, Vec<String>)> = Vec::new();
    let n = fields.len();
    let mut i: usize = 0;
    while i < n
        invariant
            n == fields.len(),
            fv == fields@.map(|_i: int, f: FieldDeclaration| f@),
            i <= n,
            spec_groups_view(groups@) == spec_group_references(fv.take(i as int)),
        decreases n - i,
    {
        proof {
            assert(fv.take(i + 1).drop_last() =~= fv.take(i as int));
            assert(fv.take(i + 1).last() == fv[i as int]);
        }
        let field = &fields[i];
        match reference_model(field) {
            Some(model) => {
                add_group(&mut groups, model.as_str(), field.name.as_str());
            },
            None => {},
        }
        i += 1;
    }
    proof {
        assert(fv.take(n as int) =~= fv);
    }
    groups
}

/// Appends a reference field to its model's group, creating the group
/// at the end on first sight of the model.
fn add_group(groups: &mut Vec<(String, Vec<String>)>, model: &str, field: &str)
    ensures
        spec_groups_view(final(groups)@) == spec_add_group(
            spec_groups_view(old(groups)@),
            model@,
            field@,
        ),
{
    let ghost gv = spec_groups_view(old(groups)@);
    let n = groups.len();
    let mut i: usize = 0;
    while i < n
        invariant
            n == groups.len(),
            i <= n,
            gv == spec_groups_view(groups@),
            gv == spec_groups_view(old(groups)@),
            forall|j: int| 0 <= j < i ==> (#[trigger] gv[j]).0 != model@,
        decreases n - i,
    {
        if str_eq(groups[i].0.as_str(), model) {
            let ghost old_fields = gv[i as int].1;
            let ghost fieldv = field@;
            let entry = groups.remove(i);
            let group_model = entry.0;
            let mut group_fields = entry.1;
            group_fields.push(field.to_owned());
            groups.insert(i, (group_model, group_fields));
            proof {
                let newv = spec_groups_view(groups@);
                assert(newv =~~= gv.update(i as int, (model@, old_fields.push(fieldv))));
                lemma_add_group_at(gv, model@, fieldv, i as int);
                assert(spec_add_group(gv, model@, fieldv) =~~= gv.update(
                    i as int,
                    (model@, old_fields.push(fieldv)),
                ));
                assert(newv == spec_add_group(gv, model@, fieldv));
            }
            return ;
        }
        i += 1;
    }
    let ghost fieldv = field@;
    let ghost modelv = model@;
    let mut group_fields: Vec<String> = Vec::new();
    group_fields.push(field.to_owned());
    groups.push((model.to_owned(), group_fields));
    proof {
        let newv = spec_groups_view(groups@);
        assert(newv =~~= gv.push((modelv, seq![fieldv])));
        lemma_add_group_missing(gv, modelv, fieldv);
        assert(spec_add_group(gv, modelv, fieldv) =~~= gv.push((modelv, seq![fieldv])));
        assert(newv == spec_add_group(gv, modelv, fieldv));
    }
}

proof fn lemma_add_group_at(
    groups: Seq<(Seq<char>, Seq<Seq<char>>)>,
    model: Seq<char>,
    field: Seq<char>,
    i: int,
)
    requires
        0 <= i < groups.len(),
        groups[i].0 == model,
        forall|j: int| 0 <= j < i ==> (#[trigger] groups[j]).0 != model,
    ensures
        spec_add_group(groups, model, field) =~= groups.update(
            i,
            (model, groups[i].1.push(field)),
        ),
    decreases i,
{
    if i == 0 {
        assert(seq![(model, groups[0].1.push(field))] + groups.drop_first() =~= groups.update(
            0,
            (model, groups[0].1.push(field)),
        ));
    } else {
        lemma_add_group_at(groups.drop_first(), model, field, i - 1);
        assert(seq![groups[0]] + groups.drop_first().update(
            i - 1,
            (model, groups.drop_first()[i - 1].1.push(field)),
        ) =~= groups.update(i, (model, groups[i].1.push(field))));
    }
}

proof fn lemma_add_group_missing(
    groups: Seq<(Seq<char>, Seq<Seq<char>>)>,
    model: Seq<char>,
    field: Seq<char>,
)
    requires
        forall|j: int| 0 <= j < groups.len() ==> (#[trigger] groups[j]).0 != model,
    ensures
        spec_add_group(groups, model, field) =~= groups.push((model, seq![field])),
    decreases groups.len(),
{
    if groups.len() > 0 {
        lemma_add_group_missing(groups.drop_first(), model, field);
        assert(seq![groups[0]] + groups.drop_first().push((model, seq![field]))
            =~= groups.push((model, seq![field])));
    }
}

} // verus!
