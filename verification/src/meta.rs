//! The Metadata Generator: consumes a record type's field declarations
//! and per-field attributes, once, at model registration, and produces
//! the Schema Descriptor — one Column per non-ignored field, a single
//! designated primary key, and the default-value policy the Dialect
//! Renderer recognizes.

use vstd::prelude::*;
use crate::casing::{snake_case_of, to_snake_case};
use crate::column::{Column, ColumnView, Reference};
use crate::dialect::{is_option_type, spec_is_option_type};
use crate::schema::{SchemaDescriptor, spec_is_primary_key_column};
use crate::strutil::{
    parse_bool, parse_i64, spec_is_int_literal, spec_int_literal_value, str_eq,
};
use crate::value::{
    JsonValue, Record, ValueView, lemma_upsert_lookup, lemma_upsert_preserves_other,
    spec_upsert,
};

verus! {

/// One parsed attribute of a field or model declaration: a key with an
/// optional literal value.
pub struct Attr {
    pub key: String,
    pub value: Option<String>,
}

/// The mathematical shape of an [`Attr`].
pub struct AttrView {
    pub key: Seq<char>,
    pub value: Option<Seq<char>>,
}

impl View for Attr {
    type V = AttrView;

    open spec fn view(&self) -> AttrView {
        AttrView {
            key: self.key@,
            value: match self.value {
                Some(ref v) => Some(v@),
                None => None,
            },
        }
    }
}

/// One declared field of a record type: its name, its logical type, and
/// its attributes in source order.
pub struct FieldDeclaration {
    pub name: String,
    pub field_type: String,
    pub attrs: Vec<Attr>,
}

/// The mathematical shape of a [`FieldDeclaration`].
pub struct FieldDeclarationView {
    pub name: Seq<char>,
    pub field_type: Seq<char>,
    pub attrs: Seq<AttrView>,
}

impl View for FieldDeclaration {
    type V = FieldDeclarationView;

    open spec fn view(&self) -> FieldDeclarationView {
        FieldDeclarationView {
            name: self.name@,
            field_type: self.field_type@,
            attrs: self.attrs@.map(|_i: int, a: Attr| a@),
        }
    }
}

/// A record type declaration: the struct name, its namespace, its
/// model-level attributes, and its fields in declaration order.
pub struct ModelDeclaration {
    pub name: String,
    pub namespace: String,
    pub attrs: Vec<Attr>,
    pub fields: Vec<FieldDeclaration>,
}

/// A registered model a `reference` attribute can resolve against: its
/// declared name, its table, and its primary-key column name.
pub struct ReferencedModel {
    pub model_name: String,
    pub table_name: String,
    pub primary_key_name: String,
}

/// Whether the attribute key is special: consumed by the generator
/// itself and never stored as an extra attribute.
pub open spec fn spec_is_special_attr(key: Seq<char>) -> bool {
    ||| key == "ignore"@
    ||| key == "type_name"@
    ||| key == "not_null"@
    ||| key == "default_value"@
    ||| key == "index_type"@
    ||| key == "reference"@
    ||| key == "comment"@
    ||| key == "constructor"@
}

/// Whether the field name is reserved for framework bookkeeping.
pub open spec fn spec_is_reserved_field(name: Seq<char>) -> bool {
    ||| name == "created_at"@
    ||| name == "updated_at"@
    ||| name == "version"@
    ||| name == "edition"@
}

/// Whether the logical type is one of the integer types that default to
/// the literal `0`.
pub open spec fn spec_is_integer_type(t: Seq<char>) -> bool {
    ||| t == "u64"@
    ||| t == "i64"@
    ||| t == "u32"@
    ||| t == "i32"@
    ||| t == "u16"@
    ||| t == "i16"@
    ||| t == "u8"@
    ||| t == "i8"@
    ||| t == "usize"@
    ||| t == "isize"@
}

/// The canonical value an extra attribute literal is stored as: a
/// missing value means `true`; a literal that parses as a 64-bit
/// integer or as a boolean is stored as such; any other literal — also
/// a malformed number — degrades to a string and never aborts
/// generation.
pub open spec fn spec_attr_value(value: Option<Seq<char>>) -> ValueView {
    match value {
        None => ValueView::Bool(true),
        Some(s) => if spec_is_int_literal(s) && i64::MIN <= spec_int_literal_value(s)
            <= i64::MAX {
            ValueView::Int(spec_int_literal_value(s) as i64)
        } else if s == "true"@ {
            ValueView::Bool(true)
        } else if s == "false"@ {
            ValueView::Bool(false)
        } else {
            ValueView::Text(s)
        },
    }
}

/// The state the per-field attribute fold threads: every component a
/// Column is later assembled from.
pub struct FieldState {
    pub ignore: bool,
    pub field_type: Seq<char>,
    pub column_type: Option<Seq<char>>,
    pub not_null: bool,
    pub default_value: Option<Seq<char>>,
    pub index_type: Option<Seq<char>>,
    pub reference: Option<Seq<char>>,
    pub comment: Option<Seq<char>>,
    pub extra: Seq<(Seq<char>, ValueView)>,
    pub read_only: bool,
    pub write_only: bool,
}

/// The fold's starting state for a field of the given logical type.
pub open spec fn spec_field_state_init(field_type: Seq<char>) -> FieldState {
    FieldState {
        ignore: false,
        field_type: field_type,
        column_type: None,
        not_null: false,
        default_value: None,
        index_type: None,
        reference: None,
        comment: None,
        extra: Seq::<(Seq<char>, ValueView)>::empty(),
        read_only: false,
        write_only: false,
    }
}

/// One step of the per-field attribute fold. An `ignore` already seen
/// stops all further processing. A non-special key is stored as an
/// extra attribute first; a reserved field is marked; then the key's
/// own effect applies.
pub open spec fn spec_field_step(st: FieldState, a: AttrView, reserved: bool) -> FieldState {
    if st.ignore {
        st
    } else {
        let extra = if !spec_is_special_attr(a.key) {
            spec_upsert(st.extra, a.key, spec_attr_value(a.value))
        } else {
            st.extra
        };
        let extra = if reserved {
            spec_upsert(extra, "reserved"@, ValueView::Bool(true))
        } else {
            extra
        };
        let st = FieldState { extra, ..st };
        if a.key == "ignore"@ {
            FieldState { ignore: true, ..st }
        } else if a.key == "type_name"@ {
            match a.value {
                Some(v) => FieldState { field_type: v, ..st },
                None => st,
            }
        } else if a.key == "column_type"@ {
            FieldState { column_type: a.value, ..st }
        } else if a.key == "length"@ && st.field_type == "String"@ {
            match a.value {
                Some(v) => FieldState { column_type: Some("CHAR("@ + v + ")"@), ..st },
                None => st,
            }
        } else if a.key == "max_length"@ && st.field_type == "String"@ {
            match a.value {
                Some(v) => FieldState { column_type: Some("VARCHAR("@ + v + ")"@), ..st },
                None => st,
            }
        } else if a.key == "not_null"@ {
            FieldState { not_null: true, ..st }
        } else if a.key == "default_value"@ {
            FieldState { default_value: a.value, ..st }
        } else if a.key == "auto_increment"@ {
            FieldState { default_value: Some("auto_increment"@), ..st }
        } else if a.key == "auto_random"@ {
            FieldState { default_value: Some("auto_random"@), ..st }
        } else if a.key == "index_type"@ {
            FieldState { index_type: a.value, ..st }
        } else if a.key == "reference"@ {
            FieldState { reference: a.value, ..st }
        } else if a.key == "comment"@ {
            FieldState { comment: a.value, ..st }
        } else if a.key == "read_only"@ {
            FieldState { read_only: true, ..st }
        } else if a.key == "write_only"@ {
            FieldState { write_only: true, ..st }
        } else {
            st
        }
    }
}

/// The per-field attribute fold over the attributes in source order.
pub open spec fn spec_fold_field_attrs(
    attrs: Seq<AttrView>,
    field_type: Seq<char>,
    reserved: bool,
) -> FieldState
    decreases attrs.len(),
{
    if attrs.len() == 0 {
        spec_field_state_init(field_type)
    } else {
        spec_field_step(
            spec_fold_field_attrs(attrs.drop_last(), field_type, reserved),
            attrs.last(),
            reserved,
        )
    }
}

/// The first registered model of the given name, if any.
pub open spec fn spec_resolve_reference(
    registry: Seq<(Seq<char>, Seq<char>, Seq<char>)>,
    model: Seq<char>,
) -> Option<(Seq<char>, Seq<char>)>
    decreases registry.len(),
{
    if registry.len() == 0 {
        None
    } else if registry[0].0 == model {
        Some((registry[0].1, registry[0].2))
    } else {
        spec_resolve_reference(registry.drop_first(), model)
    }
}

/// The view of a reference registry.
pub open spec fn spec_registry_view(registry: Seq<ReferencedModel>) -> Seq<
    (Seq<char>, Seq<char>, Seq<char>),
> {
    registry.map(
        |_i: int, m: ReferencedModel| (m.model_name@, m.table_name@, m.primary_key_name@),
    )
}

/// The column derived for a field, after the attribute fold and the
/// post-processing policy; nothing for an ignored field.
///
/// Post-processing: the primary-key field is forced not-null and marked
/// with the `primary_key` extra attribute; an optional field is never
/// not-null; an integer field defaults to the literal `0` unless a
/// default is given; any other field with a `column_type` override gets
/// it as an extra attribute. A default-value literal — also a
/// constructor path, stored by its literal — is recorded under the
/// `default` extra attribute. A `reference` names a registered model
/// and resolves to that model's table and primary-key column.
pub open spec fn spec_derived_column(
    f: FieldDeclarationView,
    primary_key_name: Seq<char>,
    registry: Seq<(Seq<char>, Seq<char>, Seq<char>)>,
) -> Option<ColumnView> {
    let st = spec_fold_field_attrs(f.attrs, f.field_type, spec_is_reserved_field(f.name));
    if st.ignore {
        None
    } else {
        let is_primary_key = f.name == primary_key_name;
        let not_null = if is_primary_key {
            true
        } else if spec_is_option_type(st.field_type) {
            false
        } else {
            st.not_null
        };
        let default_value = if !is_primary_key && !spec_is_option_type(st.field_type)
            && spec_is_integer_type(st.field_type) && st.default_value is None {
            Some("0"@)
        } else {
            st.default_value
        };
        let extra = if is_primary_key {
            spec_upsert(st.extra, "primary_key"@, ValueView::Bool(true))
        } else if !spec_is_option_type(st.field_type) && !spec_is_integer_type(st.field_type)
            && st.column_type is Some {
            spec_upsert(st.extra, "column_type"@, ValueView::Text(st.column_type.unwrap()))
        } else {
            st.extra
        };
        let extra = match default_value {
            Some(v) => spec_upsert(extra, "default"@, ValueView::Text(v)),
            None => extra,
        };
        Some(
            ColumnView {
                name: f.name,
                field_type: st.field_type,
                not_null,
                default_value,
                index_type: st.index_type,
                reference: match st.reference {
                    Some(m) => spec_resolve_reference(registry, m),
                    None => None,
                },
                comment: st.comment,
                extra,
            },
        )
    }
}

/// Whether the field carries a `primary_key` attribute.
pub open spec fn spec_has_primary_key_attr(f: FieldDeclarationView) -> bool {
    exists|i: int| 0 <= i < f.attrs.len() && (#[trigger] f.attrs[i]).key == "primary_key"@
}

/// The designated primary-key name: the name of the first field marked
/// `primary_key`, or `id` when none is marked.
pub open spec fn spec_primary_key_name(fields: Seq<FieldDeclarationView>) -> Seq<char>
    decreases fields.len(),
{
    if fields.len() == 0 {
        "id"@
    } else if spec_has_primary_key_attr(fields[0]) {
        fields[0].name
    } else {
        spec_primary_key_name(fields.drop_first())
    }
}

/// Whether the attribute key is special.
fn is_special_attr(key: &str) -> (r: bool)
    ensures
        r == spec_is_special_attr(key@),
{
    str_eq(key, "ignore") || str_eq(key, "type_name") || str_eq(key, "not_null") || str_eq(
        key,
        "default_value",
    ) || str_eq(key, "index_type") || str_eq(key, "reference") || str_eq(key, "comment")
        || str_eq(key, "constructor")
}

/// Whether the field name is reserved for framework bookkeeping.
pub fn is_reserved_field(name: &str) -> (r: bool)
    ensures
        r == spec_is_reserved_field(name@),
{
    str_eq(name, "created_at") || str_eq(name, "updated_at") || str_eq(name, "version")
        || str_eq(name, "edition")
}

/// Whether the logical type is one of the integer types that default to
/// the literal `0`.
pub fn is_integer_type(t: &str) -> (r: bool)
    ensures
        r == spec_is_integer_type(t@),
{
    str_eq(t, "u64") || str_eq(t, "i64") || str_eq(t, "u32") || str_eq(t, "i32") || str_eq(
        t,
        "u16",
    ) || str_eq(t, "i16") || str_eq(t, "u8") || str_eq(t, "i8") || str_eq(t, "usize")
        || str_eq(t, "isize")
}

/// The canonical value an extra attribute literal is stored as.
fn attr_value(value: &Option<String>) -> (r: JsonValue)
    ensures
        r@ == spec_attr_value(
            match value {
                Some(v) => Some(v@),
                None => None,
            },
        ),
{
    match value {
        None => JsonValue::Bool(true),
        Some(s) => {
            match parse_i64(s.as_str()) {
                Some(v) => JsonValue::Int(v),
                None => {
                    match parse_bool(s.as_str()) {
                        Some(b) => {
                            proof {
                                reveal_strlit("true");
                                reveal_strlit("false");
                                reveal_strlit("+");
                                reveal_strlit("-");
                            }
                            JsonValue::Bool(b)
                        },
                        None => JsonValue::Text(s.clone()),
                    }
                },
            }
        },
    }
}

/// Whether the field carries a `primary_key` attribute.
fn has_primary_key_attr(f: &FieldDeclaration) -> (r: bool)
    ensures
        r == spec_has_primary_key_attr(f@),
{
    let n = f.attrs.len();
    let mut i: usize = 0;
    while i < n
        invariant
            n == f.attrs.len(),
            i <= n,
            forall|j: int| 0 <= j < i ==> (#[trigger] f@.attrs[j]).key != "primary_key"@,
        decreases n - i,
    {
        if str_eq(f.attrs[i].key.as_str(), "primary_key") {
            proof {
                assert(f@.attrs[i as int].key == "primary_key"@);
            }
            return true;
        }
        i += 1;
    }
    false
}

/// The designated primary-key name of a field list: the name of the
/// first field marked `primary_key`, or `id` when none is marked.
pub fn primary_key_of(fields: &Vec<FieldDeclaration>) -> (r: String)
    ensures
        r@ == spec_primary_key_name(fields@.map(|_i: int, f: FieldDeclaration| f@)),
{
    proof {
        assert(fields@.map(|_i: int, f: FieldDeclaration| f@).skip(0) =~= fields@.map(
            |_i: int, f: FieldDeclaration| f@,
        ));
    }
    let n = fields.len();
    let mut i: usize = 0;
    while i < n
        invariant
            n == fields.len(),
            i <= n,
            spec_primary_key_name(fields@.map(|_i: int, f: FieldDeclaration| f@))
                == spec_primary_key_name(
                fields@.map(|_i: int, f: FieldDeclaration| f@).skip(i as int),
            ),
        decreases n - i,
    {
        let ghost fs = fields@.map(|_i: int, f: FieldDeclaration| f@);
        if has_primary_key_attr(&fields[i]) {
            proof {
                assert(fs.skip(i as int)[0] == fs[i as int]);
            }
            return fields[i].name.clone();
        }
        proof {
            assert(fs.skip(i as int)[0] == fs[i as int]);
            assert(fs.skip(i as int).drop_first() =~= fs.skip(i + 1));
        }
        i += 1;
    }
    proof {
        let fs = fields@.map(|_i: int, f: FieldDeclaration| f@);
        assert(fs.skip(n as int) =~= Seq::<FieldDeclarationView>::empty());
        reveal_strlit("id");
    }
    String::from_str("id")
}

/// Resolves a `reference` attribute against the registered models: the
/// first registered model of that name supplies the table and the
/// primary-key column.
fn resolve_reference(registry: &Vec<ReferencedModel>, model: &str) -> (r: Option<Reference>)
    ensures
        match r {
            Some(reference) => spec_resolve_reference(spec_registry_view(registry@), model@)
                == Some((reference.table@, reference.column@)),
            None => spec_resolve_reference(spec_registry_view(registry@), model@) is None,
        },
{
    proof {
        assert(spec_registry_view(registry@).skip(0) =~= spec_registry_view(registry@));
    }
    let n = registry.len();
    let mut i: usize = 0;
    while i < n
        invariant
            n == registry.len(),
            i <= n,
            spec_resolve_reference(spec_registry_view(registry@), model@)
                == spec_resolve_reference(spec_registry_view(registry@).skip(i as int), model@),
            forall|j: int|
                0 <= j < i ==> (#[trigger] spec_registry_view(registry@)[j]).0 != model@,
        decreases n - i,
    {
        let ghost rv = spec_registry_view(registry@);
        if str_eq(registry[i].model_name.as_str(), model) {
            proof {
                assert(rv.skip(i as int)[0] == rv[i as int]);
            }
            return Some(
                Reference {
                    table: registry[i].table_name.clone(),
                    column: registry[i].primary_key_name.clone(),
                },
            );
        }
        proof {
            assert(rv.skip(i as int)[0] == rv[i as int]);
            assert(rv.skip(i as int).drop_first() =~= rv.skip(i + 1));
        }
        i += 1;
    }
    proof {
        assert(spec_registry_view(registry@).skip(n as int) =~= Seq::<
            (Seq<char>, Seq<char>, Seq<char>),
        >::empty());
    }
    None
}

/// Derives the column of one field: folds its attributes in source
/// order, then applies the post-processing policy. Returns nothing for
/// an ignored field.
#[verifier::rlimit(100)]
pub fn derive_column(
    field: &FieldDeclaration,
    primary_key_name: &str,
    registry: &Vec<ReferencedModel>,
) -> (r: Option<Column>)
    ensures
        match r {
            Some(c) => spec_derived_column(
                field@,
                primary_key_name@,
                spec_registry_view(registry@),
            ) == Some(c@),
            None => spec_derived_column(
                field@,
                primary_key_name@,
                spec_registry_view(registry@),
            ) is None,
        },
{
    let reserved = is_reserved_field(field.name.as_str());
    let mut ignore = false;
    let mut field_type = field.field_type.clone();
    let mut column_type: Option<String> = None;
    let mut not_null = false;
    let mut default_value: Option<String> = None;
    let mut index_type: Option<String> = None;
    let mut reference: Option<String> = None;
    let mut comment: Option<String> = None;
    let mut extra = Record::new();
    let mut read_only = false;
    let mut write_only = false;
    let n = field.attrs.len();
    let mut i: usize = 0;
    while i < n
        invariant
            n == field.attrs.len(),
            i <= n,
            reserved == spec_is_reserved_field(field@.name),
            state_matches(
                spec_fold_field_attrs(field@.attrs.take(i as int), field@.field_type, reserved),
                ignore,
                field_type@,
                match column_type {
                    Some(ref v) => Some(v@),
                    None => None,
                },
                not_null,
                match default_value {
                    Some(ref v) => Some(v@),
                    None => None,
                },
                match index_type {
                    Some(ref v) => Some(v@),
                    None => None,
                },
                match reference {
                    Some(ref v) => Some(v@),
                    None => None,
                },
                match comment {
                    Some(ref v) => Some(v@),
                    None => None,
                },
                extra@,
                read_only,
                write_only,
            ),
        decreases n - i,
    {
        let ghost prev = spec_fold_field_attrs(
            field@.attrs.take(i as int),
            field@.field_type,
            reserved,
        );
        proof {
            assert(field@.attrs.take(i + 1).drop_last() =~= field@.attrs.take(i as int));
            assert(field@.attrs.take(i + 1).last() == field@.attrs[i as int]);
        }
        let attr = &field.attrs[i];
        let key = attr.key.as_str();
        if !ignore {
            if !is_special_attr(key) {
                let value = attr_value(&attr.value);
                extra.upsert(attr.key.clone(), value);
            }
            if reserved {
                extra.upsert(String::from_str("reserved"), JsonValue::Bool(true));
            }
            if str_eq(key, "ignore") {
                ignore = true;
            } else if str_eq(key, "type_name") {
                match attr.value {
                    Some(ref v) => {
                        field_type = v.clone();
                    },
                    None => {},
                }
            } else if str_eq(key, "column_type") {
                column_type = clone_option(&attr.value);
            } else if str_eq(key, "length") && str_eq(field_type.as_str(), "String") {
                match attr.value {
                    Some(ref v) => {
                        let mut t = String::from_str("CHAR(");
                        t.append(v.as_str());
                        t.append(")");
                        column_type = Some(t);
                    },
                    None => {},
                }
            } else if str_eq(key, "max_length") && str_eq(field_type.as_str(), "String") {
                match attr.value {
                    Some(ref v) => {
                        let mut t = String::from_str("VARCHAR(");
                        t.append(v.as_str());
                        t.append(")");
                        column_type = Some(t);
                    },
                    None => {},
                }
            } else if str_eq(key, "not_null") {
                not_null = true;
            } else if str_eq(key, "default_value") {
                default_value = clone_option(&attr.value);
            } else if str_eq(key, "auto_increment") {
                default_value = Some(String::from_str("auto_increment"));
            } else if str_eq(key, "auto_random") {
                default_value = Some(String::from_str("auto_random"));
            } else if str_eq(key, "index_type") {
                index_type = clone_option(&attr.value);
            } else if str_eq(key, "reference") {
                reference = clone_option(&attr.value);
            } else if str_eq(key, "comment") {
                comment = clone_option(&attr.value);
            } else if str_eq(key, "read_only") {
                read_only = true;
            } else if str_eq(key, "write_only") {
                write_only = true;
            }
        }
        i += 1;
    }
    proof {
        assert(field@.attrs.take(n as int) =~= field@.attrs);
    }
    if ignore {
        return None;
    }
    let is_primary_key = str_eq(field.name.as_str(), primary_key_name);
    let option_type = is_option_type(field_type.as_str());
    let integer_type = is_integer_type(field_type.as_str());
    if is_primary_key {
        not_null = true;
    } else if option_type {
        not_null = false;
    } else if integer_type && default_value.is_none() {
        default_value = Some(String::from_str("0"));
    }
    if is_primary_key {
        extra.upsert(String::from_str("primary_key"), JsonValue::Bool(true));
    } else if !option_type && !integer_type {
        match column_type {
            Some(ref v) => {
                extra.upsert(String::from_str("column_type"), JsonValue::Text(v.clone()));
            },
            None => {},
        }
    }
    match default_value {
        Some(ref v) => {
            extra.upsert(String::from_str("default"), JsonValue::Text(v.clone()));
        },
        None => {},
    }
    let resolved = match reference {
        Some(ref m) => resolve_reference(registry, m.as_str()),
        None => None,
    };
    let column = Column {
        name: field.name.clone(),
        field_type,
        not_null,
        default_value,
        index_type,
        reference: resolved,
        comment,
        extra,
    };
    Some(column)
}

/// The value of the last model-level attribute of the given key that
/// carries one, if any: a later attribute overrides an earlier one.
pub open spec fn spec_model_attr(attrs: Seq<AttrView>, key: Seq<char>) -> Option<Seq<char>>
    decreases attrs.len(),
{
    if attrs.len() == 0 {
        None
    } else if attrs.last().key == key && attrs.last().value is Some {
        attrs.last().value
    } else {
        spec_model_attr(attrs.drop_last(), key)
    }
}

/// The value of the last model-level attribute of the given key that
/// carries one, if any.
pub fn model_attr(attrs: &Vec<Attr>, key: &str) -> (r: Option<String>)
    ensures
        match r {
            Some(v) => spec_model_attr(attrs@.map(|_i: int, a: Attr| a@), key@) == Some(v@),
            None => spec_model_attr(attrs@.map(|_i: int, a: Attr| a@), key@) is None,
        },
{
    let ghost av = attrs@.map(|_i: int, a: Attr| a@);
    let n = attrs.len();
    let mut found: Option<String> = None;
    let mut i: usize = 0;
    while i < n
        invariant
            n == attrs.len(),
            i <= n,
            av == attrs@.map(|_i: int, a: Attr| a@),
            match found {
                Some(ref v) => spec_model_attr(av.take(i as int), key@) == Some(v@),
                None => spec_model_attr(av.take(i as int), key@) is None,
            },
        decreases n - i,
    {
        proof {
            assert(av.take(i + 1).drop_last() =~= av.take(i as int));
            assert(av.take(i + 1).last() == av[i as int]);
        }
        if str_eq(attrs[i].key.as_str(), key) {
            match attrs[i].value {
                Some(ref v) => {
                    found = Some(v.clone());
                },
                None => {},
            }
        }
        i += 1;
    }
    proof {
        assert(av.take(n as int) =~= av);
    }
    found
}

/// The columns derived for a field list, in declaration order, skipping
/// ignored fields.
pub open spec fn spec_derived_columns(
    fields: Seq<FieldDeclarationView>,
    primary_key_name: Seq<char>,
    registry: Seq<(Seq<char>, Seq<char>, Seq<char>)>,
) -> Seq<ColumnView>
    decreases fields.len(),
{
    if fields.len() == 0 {
        Seq::<ColumnView>::empty()
    } else {
        spec_derived_columns(fields.drop_last(), primary_key_name, registry) + (
        match spec_derived_column(fields.last(), primary_key_name, registry) {
            Some(c) => seq![c],
            None => Seq::<ColumnView>::empty(),
        })
    }
}

/// The names of the non-ignored fields whose fold state carries the
/// given tag: the read-only and write-only field lists.
pub open spec fn spec_tagged_fields(
    fields: Seq<FieldDeclarationView>,
    write_only: bool,
) -> Seq<Seq<char>>
    decreases fields.len(),
{
    if fields.len() == 0 {
        Seq::<Seq<char>>::empty()
    } else {
        let st = spec_fold_field_attrs(
            fields.last().attrs,
            fields.last().field_type,
            spec_is_reserved_field(fields.last().name),
        );
        let tagged = !st.ignore && (if write_only {
            st.write_only
        } else {
            st.read_only
        });
        spec_tagged_fields(fields.drop_last(), write_only) + (if tagged {
            seq![fields.last().name]
        } else {
            Seq::<Seq<char>>::empty()
        })
    }
}

/// The logical type of the first column named `primary_key_name`, or
/// the UUID-like default when no column carries that name.
pub open spec fn spec_primary_key_type(columns: Seq<ColumnView>, primary_key_name: Seq<char>) -> Seq<
    char,
>
    decreases columns.len(),
{
    if columns.len() == 0 {
        "Uuid"@
    } else if columns[0].name == primary_key_name {
        columns[0].field_type
    } else {
        spec_primary_key_type(columns.drop_first(), primary_key_name)
    }
}

/// Whether the field's attribute fold leaves the given tag set on a
/// field that is not ignored.
fn field_tagged(field: &FieldDeclaration, write_only: bool) -> (r: bool)
    ensures
        ({
            let st = spec_fold_field_attrs(
                field@.attrs,
                field@.field_type,
                spec_is_reserved_field(field@.name),
            );
            r == (!st.ignore && (if write_only {
                st.write_only
            } else {
                st.read_only
            }))
        }),
{
    let reserved = is_reserved_field(field.name.as_str());
    let mut ignore = false;
    let mut tagged = false;
    let mut field_type = field.field_type.clone();
    let n = field.attrs.len();
    let mut i: usize = 0;
    while i < n
        invariant
            n == field.attrs.len(),
            i <= n,
            reserved == spec_is_reserved_field(field@.name),
            ({
                let st = spec_fold_field_attrs(
                    field@.attrs.take(i as int),
                    field@.field_type,
                    reserved,
                );
                ignore == st.ignore && field_type@ == st.field_type && tagged == (
                if write_only {
                    st.write_only
                } else {
                    st.read_only
                })
            }),
        decreases n - i,
    {
        proof {
            assert(field@.attrs.take(i + 1).drop_last() =~= field@.attrs.take(i as int));
            assert(field@.attrs.take(i + 1).last() == field@.attrs[i as int]);
        }
        let attr = &field.attrs[i];
        let key = attr.key.as_str();
        if !ignore {
            // The chain mirrors the fold step; a branch that only moves
            // components the tag scan does not track moves nothing here.
            if str_eq(key, "ignore") {
                ignore = true;
            } else if str_eq(key, "type_name") {
                match attr.value {
                    Some(ref v) => {
                        field_type = v.clone();
                    },
                    None => {},
                }
            } else if str_eq(key, "column_type") {
            } else if str_eq(key, "length") && str_eq(field_type.as_str(), "String") {
            } else if str_eq(key, "max_length") && str_eq(field_type.as_str(), "String") {
            } else if str_eq(key, "not_null") {
            } else if str_eq(key, "default_value") {
            } else if str_eq(key, "auto_increment") {
            } else if str_eq(key, "auto_random") {
            } else if str_eq(key, "index_type") {
            } else if str_eq(key, "reference") {
            } else if str_eq(key, "comment") {
            } else if str_eq(key, "read_only") {
                if !write_only {
                    tagged = true;
                }
            } else if str_eq(key, "write_only") {
                if write_only {
                    tagged = true;
                }
            }
        }
        i += 1;
    }
    proof {
        assert(field@.attrs.take(n as int) =~= field@.attrs);
    }
    !ignore && tagged
}

/// Derives the Schema Descriptor of a model declaration, once, at
/// registration: the model-level attributes settle the model name, the
/// reader and writer pool names, the table name and the comment; the
/// canonical name is the snake-cased model name; the designated
/// primary key is the first field marked `primary_key`, or `id`; one
/// column is derived per non-ignored field, in declaration order.
pub fn derive_schema(
    model: &ModelDeclaration,
    registry: &Vec<ReferencedModel>,
) -> (r: SchemaDescriptor)
    ensures
        ({
            let attrs = model.attrs@.map(|_i: int, a: Attr| a@);
            let fields = model.fields@.map(|_i: int, f: FieldDeclaration| f@);
            let model_name = match spec_model_attr(attrs, "model_name"@) {
                Some(v) => v,
                None => model.name@,
            };
            let pk = spec_primary_key_name(fields);
            &&& r@.model_name == model_name
            &&& r@.canonical_name == snake_case_of(model_name)
            &&& r@.namespace == model.namespace@
            &&& r@.doc == spec_model_attr(attrs, "comment"@)
            &&& r@.primary_key_name == pk
            &&& r@.columns == spec_derived_columns(fields, pk, spec_registry_view(registry@))
            &&& r@.primary_key_type == spec_primary_key_type(r@.columns, pk)
            &&& r@.reader_name == (match spec_model_attr(attrs, "reader_name"@) {
                Some(v) => v,
                None => "main"@,
            })
            &&& r@.writer_name == (match spec_model_attr(attrs, "writer_name"@) {
                Some(v) => v,
                None => "main"@,
            })
            &&& r@.table_name == spec_model_attr(attrs, "table_name"@)
            &&& r@.read_only_fields == spec_tagged_fields(fields, false)
            &&& r@.write_only_fields == spec_tagged_fields(fields, true)
        }),
{
    let ghost fields_view = model.fields@.map(|_i: int, f: FieldDeclaration| f@);
    let model_name = match model_attr(&model.attrs, "model_name") {
        Some(v) => v,
        None => model.name.clone(),
    };
    let reader_name = match model_attr(&model.attrs, "reader_name") {
        Some(v) => v,
        None => String::from_str("main"),
    };
    let writer_name = match model_attr(&model.attrs, "writer_name") {
        Some(v) => v,
        None => String::from_str("main"),
    };
    let table_name = model_attr(&model.attrs, "table_name");
    let doc = model_attr(&model.attrs, "comment");
    let canonical_name = to_snake_case(model_name.as_str());
    let primary_key_name = primary_key_of(&model.fields);
    let mut columns: Vec<Column> = Vec::new();
    let mut read_only_fields: Vec<String> = Vec::new();
    let mut write_only_fields: Vec<String> = Vec::new();
    let n = model.fields.len();
    let mut i: usize = 0;
    while i < n
        invariant
            n == model.fields.len(),
            i <= n,
            fields_view == model.fields@.map(|_i: int, f: FieldDeclaration| f@),
            columns@.map(|_i: int, c: Column| c@) == spec_derived_columns(
                fields_view.take(i as int),
                primary_key_name@,
                spec_registry_view(registry@),
            ),
            read_only_fields@.map(|_i: int, s: String| s@) == spec_tagged_fields(
                fields_view.take(i as int),
                false,
            ),
            write_only_fields@.map(|_i: int, s: String| s@) == spec_tagged_fields(
                fields_view.take(i as int),
                true,
            ),
        decreases n - i,
    {
        proof {
            assert(fields_view.take(i + 1).drop_last() =~= fields_view.take(i as int));
            assert(fields_view.take(i + 1).last() == fields_view[i as int]);
        }
        let field = &model.fields[i];
        let ghost old_columns = columns@.map(|_i: int, c: Column| c@);
        match derive_column(field, primary_key_name.as_str(), registry) {
            Some(column) => {
                let ghost cv = column@;
                columns.push(column);
                proof {
                    assert(columns@.map(|_i: int, c: Column| c@) =~= old_columns.push(cv));
                    assert(old_columns.push(cv) =~= old_columns + seq![cv]);
                }
            },
            None => {},
        }
        let ghost old_read_only = read_only_fields@.map(|_i: int, s: String| s@);
        if field_tagged(field, false) {
            let name = field.name.clone();
            let ghost nv = name@;
            read_only_fields.push(name);
            proof {
                assert(read_only_fields@.map(|_i: int, s: String| s@) =~= old_read_only + seq![
                    nv,
                ]);
            }
        }
        let ghost old_write_only = write_only_fields@.map(|_i: int, s: String| s@);
        if field_tagged(field, true) {
            let name = field.name.clone();
            let ghost nv = name@;
            write_only_fields.push(name);
            proof {
                assert(write_only_fields@.map(|_i: int, s: String| s@) =~= old_write_only + seq![
                    nv,
                ]);
            }
        }
        i += 1;
    }
    proof {
        assert(fields_view.take(n as int) =~= fields_view);
    }
    let primary_key_type = primary_key_type_of(&columns, primary_key_name.as_str());
    SchemaDescriptor {
        model_name,
        canonical_name,
        namespace: model.namespace.clone(),
        doc,
        columns,
        primary_key_name,
        primary_key_type,
        reader_name,
        writer_name,
        table_name,
        read_only_fields,
        write_only_fields,
    }
}

/// The logical type of the first column of the given name, or the
/// UUID-like default when none carries it.
fn primary_key_type_of(columns: &Vec<Column>, primary_key_name: &str) -> (r: String)
    ensures
        r@ == spec_primary_key_type(columns@.map(|_i: int, c: Column| c@), primary_key_name@),
{
    let ghost cv = columns@.map(|_i: int, c: Column| c@);
    proof {
        assert(cv.skip(0) =~= cv);
    }
    let n = columns.len();
    let mut i: usize = 0;
    while i < n
        invariant
            n == columns.len(),
            i <= n,
            cv == columns@.map(|_i: int, c: Column| c@),
            spec_primary_key_type(cv, primary_key_name@) == spec_primary_key_type(
                cv.skip(i as int),
                primary_key_name@,
            ),
        decreases n - i,
    {
        proof {
            assert(cv.skip(i as int)[0] == cv[i as int]);
            assert(cv.skip(i as int).drop_first() =~= cv.skip(i + 1));
        }
        if str_eq(columns[i].name.as_str(), primary_key_name) {
            return columns[i].field_type.clone();
        }
        i += 1;
    }
    proof {
        assert(cv.skip(n as int) =~= Seq::<ColumnView>::empty());
        reveal_strlit("Uuid");
    }
    String::from_str("Uuid")
}

/// Whether the exec-side locals agree with the fold state.
pub open spec fn state_matches(
    st: FieldState,
    ignore: bool,
    field_type: Seq<char>,
    column_type: Option<Seq<char>>,
    not_null: bool,
    default_value: Option<Seq<char>>,
    index_type: Option<Seq<char>>,
    reference: Option<Seq<char>>,
    comment: Option<Seq<char>>,
    extra: Seq<(Seq<char>, ValueView)>,
    read_only: bool,
    write_only: bool,
) -> bool {
    &&& st.ignore == ignore
    &&& st.field_type == field_type
    &&& st.column_type == column_type
    &&& st.not_null == not_null
    &&& st.default_value == default_value
    &&& st.index_type == index_type
    &&& st.reference == reference
    &&& st.comment == comment
    &&& st.extra == extra
    &&& st.read_only == read_only
    &&& st.write_only == write_only
}

/// A copy of an optional string.
fn clone_option(value: &Option<String>) -> (r: Option<String>)
    ensures
        match r {
            Some(v) => (match value {
                Some(w) => v@ == w@,
                None => false,
            }),
            None => value is None,
        },
{
    match value {
        Some(ref v) => Some(v.clone()),
        None => None,
    }
}

/// The derived column of the designated primary-key field carries the
/// `primary_key` extra attribute: the descriptor's single marked
/// column is the one its primary-key name points at.
pub proof fn lemma_primary_key_column_marked(
    f: FieldDeclarationView,
    primary_key_name: Seq<char>,
    registry: Seq<(Seq<char>, Seq<char>, Seq<char>)>,
)
    requires
        f.name == primary_key_name,
        spec_derived_column(f, primary_key_name, registry) is Some,
    ensures
        spec_is_primary_key_column(
            spec_derived_column(f, primary_key_name, registry).unwrap(),
        ),
        spec_derived_column(f, primary_key_name, registry).unwrap().not_null,
{
    reveal_strlit("primary_key");
    reveal_strlit("default");
    assert("primary_key"@.len() == 11);
    assert("default"@.len() == 7);
    let st = spec_fold_field_attrs(f.attrs, f.field_type, spec_is_reserved_field(f.name));
    let marked = spec_upsert(st.extra, "primary_key"@, ValueView::Bool(true));
    lemma_upsert_lookup(st.extra, "primary_key"@, ValueView::Bool(true));
    let c = spec_derived_column(f, primary_key_name, registry).unwrap();
    match c.default_value {
        Some(v) => {
            lemma_upsert_preserves_other(
                marked,
                "default"@,
                ValueView::Text(v),
                "primary_key"@,
            );
        },
        None => {},
    }
}

} // verus!
