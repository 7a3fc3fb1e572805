//! Constraint checks: the per-field and composite validations a model
//! runs before persisting. Checks that need a database round trip — is
//! a column value unique, do referenced keys exist — take the round
//! trip's answer as a value and are verified for every answer; the
//! validation accumulates one message per failing check and never
//! short-circuits.

use vstd::prelude::*;
use crate::dialect::{is_option_type, is_vec_type, spec_is_option_type, spec_is_vec_type};
use crate::meta::{Attr, AttrView, FieldDeclaration, FieldDeclarationView, ModelDeclaration};
use crate::strutil::{
    format_u64, join_char, parse_usize, spec_format_u64, spec_is_int_literal,
    spec_is_negative, spec_int_literal_value, spec_join, spec_split, spec_trim_all,
    spec_trim_end, spec_trim_start, split_char, str_eq, trim_all, trim_pair,
};
use crate::value::{JsonValue, Record, ValueView};

verus! {

/// An accumulator of `(field name, message)` pairs, built once per
/// validate-and-persist attempt; pass/fail is read off `is_empty`.
pub struct Validation {
    pub entries: Vec<(String, String)>,
}

impl View for Validation {
    type V = Seq<(Seq<char>, Seq<char>)>;

    open spec fn view(&self) -> Seq<(Seq<char>, Seq<char>)> {
        self.entries@.map(|_i: int, e: (String, String)| (e.0@, e.1@))
    }
}

impl Validation {
    /// An empty validation.
    pub fn new() -> (r: Validation)
        ensures
            r@ == Seq::<(Seq<char>, Seq<char>)>::empty(),
    {
        let r = Validation { entries: Vec::new() };
        proof {
            assert(r@ =~= Seq::<(Seq<char>, Seq<char>)>::empty());
        }
        r
    }

    /// Records one message for a field.
    pub fn record(&mut self, name: String, message: String)
        ensures
            final(self)@ == old(self)@.push((name@, message@)),
    {
        let ghost pair = (name@, message@);
        self.entries.push((name, message));
        proof {
            assert(self@ =~= old(self)@.push(pair));
        }
    }

    /// Whether no check failed.
    pub fn is_empty(&self) -> (r: bool)
        ensures
            r == (self@.len() == 0),
    {
        self.entries.len() == 0
    }

    /// The number of recorded messages.
    pub fn len(&self) -> (n: usize)
        ensures
            n == self@.len(),
    {
        self.entries.len()
    }
}

/// The value of one field as the constraint checks see it.
pub enum FieldValue {
    /// An optional field holding nothing.
    Missing,
    /// A scalar value; an identifier travels as its canonical string.
    Scalar(JsonValue),
    /// A sequence field's items.
    List(Vec<JsonValue>),
    /// A mapping field's entries.
    Mapping(Record),
}

/// The mathematical shape of a [`FieldValue`].
pub enum FieldValueView {
    Missing,
    Scalar(ValueView),
    List(Seq<ValueView>),
    Mapping(Seq<(Seq<char>, ValueView)>),
}

impl View for FieldValue {
    type V = FieldValueView;

    open spec fn view(&self) -> FieldValueView {
        match self {
            FieldValue::Missing => FieldValueView::Missing,
            FieldValue::Scalar(v) => FieldValueView::Scalar(v@),
            FieldValue::List(items) => FieldValueView::List(
                items@.map(|_i: int, v: JsonValue| v@),
            ),
            FieldValue::Mapping(record) => FieldValueView::Mapping(record@),
        }
    }
}

/// A model's field values, by field name.
pub struct FieldValues {
    pub entries: Vec<(String, FieldValue)>,
}

impl View for FieldValues {
    type V = Seq<(Seq<char>, FieldValueView)>;

    open spec fn view(&self) -> Seq<(Seq<char>, FieldValueView)> {
        self.entries@.map(|_i: int, e: (String, FieldValue)| (e.0@, e.1@))
    }
}

/// The value of the first entry named `name`; a field without an entry
/// counts as missing.
pub open spec fn spec_field_value(
    s: Seq<(Seq<char>, FieldValueView)>,
    name: Seq<char>,
) -> FieldValueView
    decreases s.len(),
{
    if s.len() == 0 {
        FieldValueView::Missing
    } else if s[0].0 == name {
        s[0].1
    } else {
        spec_field_value(s.drop_first(), name)
    }
}

impl FieldValues {
    /// The value of the first entry named `name`; a field without an
    /// entry counts as missing.
    pub fn get<'a>(&'a self, name: &str) -> (r: Option<&'a FieldValue>)
        ensures
            match r {
                Some(v) => v@ == spec_field_value(self@, name@),
                None => spec_field_value(self@, name@) == FieldValueView::Missing,
            },
    {
        proof {
            assert(self@.skip(0) =~= self@);
        }
        let n = self.entries.len();
        let mut i: usize = 0;
        while i < n
            invariant
                n == self.entries.len(),
                i <= n,
                spec_field_value(self@, name@) == spec_field_value(
                    self@.skip(i as int),
                    name@,
                ),
            decreases n - i,
        {
            proof {
                assert(self@.skip(i as int)[0] == self@[i as int]);
                assert(self@.skip(i as int).drop_first() =~= self@.skip(i + 1));
            }
            if str_eq(self.entries[i].0.as_str(), name) {
                return Some(&self.entries[i].1);
            }
            i += 1;
        }
        proof {
            assert(self@.skip(n as int) =~= Seq::<(Seq<char>, FieldValueView)>::empty());
        }
        None
    }
}

/// How a `unique` check decides whether a value takes part at all: an
/// identifier is skipped when nil, a string when empty, any other
/// value when missing.
#[derive(Clone, Copy, Debug, PartialEq, Eq, Structural)]
pub enum UniqueKind {
    Id,
    Text,
    Plain,
}

/// One derived constraint check.
pub enum Constraint {
    /// The composite values of several fields must be unique together;
    /// a failure is recorded under the field names joined with `_`.
    CompositeUnique { fields: Vec<String>, joined: String },
    /// The field's column value must be unique in the live table.
    Unique { field: String, kind: UniqueKind },
    /// The field's value must exist as a primary key in the referenced
    /// model's table; an optional field is only checked when present.
    ReferenceSingle { field: String, optional: bool },
    /// Every item of the sequence field must exist as a primary key in
    /// the referenced model's table; an empty list is vacuously valid.
    ReferenceList { field: String },
    /// A not-null string must be nonempty.
    NotNullText { field: String },
    /// A not-null identifier must not be nil.
    NotNullId { field: String },
    /// A string, sequence or mapping field must be nonempty.
    Nonempty { field: String },
    /// A nonempty string must satisfy a named format; the format
    /// validator's verdict is handed in.
    Format { field: String, format: String },
    /// A string must have exactly this many characters.
    ExactLength { field: String, length: usize },
    /// A string must have at most this many characters.
    MaxLength { field: String, length: usize },
    /// A string must have at least this many characters.
    MinLength { field: String, length: usize },
    /// A sequence must have at most this many items.
    MaxItems { field: String, length: usize },
    /// A sequence must have at least this many items.
    MinItems { field: String, length: usize },
    /// A sequence's items must be pairwise distinct.
    UniqueItems { field: String },
}

/// The mathematical shape of a [`Constraint`].
pub enum ConstraintView {
    CompositeUnique { fields: Seq<Seq<char>>, joined: Seq<char> },
    Unique { field: Seq<char>, kind: UniqueKind },
    ReferenceSingle { field: Seq<char>, optional: bool },
    ReferenceList { field: Seq<char> },
    NotNullText { field: Seq<char> },
    NotNullId { field: Seq<char> },
    Nonempty { field: Seq<char> },
    Format { field: Seq<char>, format: Seq<char> },
    ExactLength { field: Seq<char>, length: usize },
    MaxLength { field: Seq<char>, length: usize },
    MinLength { field: Seq<char>, length: usize },
    MaxItems { field: Seq<char>, length: usize },
    MinItems { field: Seq<char>, length: usize },
    UniqueItems { field: Seq<char> },
}

impl View for Constraint {
    type V = ConstraintView;

    open spec fn view(&self) -> ConstraintView {
        match self {
            Constraint::CompositeUnique { fields, joined } => ConstraintView::CompositeUnique {
                fields: fields@.map(|_i: int, s: String| s@),
                joined: joined@,
            },
            Constraint::Unique { field, kind } => ConstraintView::Unique {
                field: field@,
                kind: *kind,
            },
            Constraint::ReferenceSingle { field, optional } => ConstraintView::ReferenceSingle {
                field: field@,
                optional: *optional,
            },
            Constraint::ReferenceList { field } => ConstraintView::ReferenceList {
                field: field@,
            },
            Constraint::NotNullText { field } => ConstraintView::NotNullText { field: field@ },
            Constraint::NotNullId { field } => ConstraintView::NotNullId { field: field@ },
            Constraint::Nonempty { field } => ConstraintView::Nonempty { field: field@ },
            Constraint::Format { field, format } => ConstraintView::Format {
                field: field@,
                format: format@,
            },
            Constraint::ExactLength { field, length } => ConstraintView::ExactLength {
                field: field@,
                length: *length,
            },
            Constraint::MaxLength { field, length } => ConstraintView::MaxLength {
                field: field@,
                length: *length,
            },
            Constraint::MinLength { field, length } => ConstraintView::MinLength {
                field: field@,
                length: *length,
            },
            Constraint::MaxItems { field, length } => ConstraintView::MaxItems {
                field: field@,
                length: *length,
            },
            Constraint::MinItems { field, length } => ConstraintView::MinItems {
                field: field@,
                length: *length,
            },
            Constraint::UniqueItems { field } => ConstraintView::UniqueItems { field: field@ },
        }
    }
}

/// The answer an external round trip hands a check: a verdict for a
/// uniqueness or format probe, a row count for a reference probe.
#[derive(Clone, Copy, Debug, PartialEq, Eq, Structural)]
pub enum CheckAnswer {
    Holds(bool),
    Found(usize),
}

/// The canonical nil identifier.
pub open spec fn spec_nil_id() -> Seq<char> {
    "00000000-0000-0000-0000-000000000000"@
}

/// The text a value is rendered as inside a uniqueness message: a
/// string as itself, a boolean or unsigned integer in its decimal or
/// keyword form, anything else empty.
pub open spec fn spec_value_text(v: ValueView) -> Seq<char> {
    match v {
        ValueView::Text(s) => s,
        ValueView::Bool(b) => if b {
            "true"@
        } else {
            "false"@
        },
        ValueView::Int(n) => if n >= 0 {
            spec_format_u64(n as u64)
        } else {
            "-"@ + spec_format_u64((-(n as int)) as u64)
        },
        _ => ""@,
    }
}

/// Whether a sequence of values holds two equal items.
pub open spec fn spec_has_duplicate(items: Seq<ValueView>) -> bool {
    exists|i: int, j: int| 0 <= i < j < items.len() && items[i] == items[j]
}

/// Whether the check consumes one external answer for these values.
pub open spec fn spec_needs_answer(c: ConstraintView, value: FieldValueView) -> bool {
    match c {
        ConstraintView::CompositeUnique { .. } => true,
        ConstraintView::Unique { kind, .. } => match kind {
            UniqueKind::Id => value matches FieldValueView::Scalar(ValueView::Text(s))
                && s != spec_nil_id(),
            UniqueKind::Text => value matches FieldValueView::Scalar(ValueView::Text(s))
                && s.len() > 0,
            UniqueKind::Plain => !(value is Missing),
        },
        ConstraintView::ReferenceSingle { optional, .. } => !(optional && value is Missing),
        ConstraintView::ReferenceList { .. } => value matches FieldValueView::List(items)
            && items.len() > 0,
        ConstraintView::Format { .. } => value matches FieldValueView::Scalar(
            ValueView::Text(s),
        ) && s.len() > 0,
        _ => false,
    }
}

/// The messages one check yields, given its field value and — for a
/// check that consumes one — the external answer.
pub open spec fn spec_check_messages(
    c: ConstraintView,
    value: FieldValueView,
    answer: CheckAnswer,
) -> Seq<(Seq<char>, Seq<char>)> {
    match c {
        ConstraintView::CompositeUnique { joined, .. } => match answer {
            CheckAnswer::Holds(true) => Seq::<(Seq<char>, Seq<char>)>::empty(),
            _ => seq![(joined, "the composite values should be unique"@)],
        },
        ConstraintView::Unique { field, .. } => match answer {
            CheckAnswer::Holds(true) => Seq::<(Seq<char>, Seq<char>)>::empty(),
            _ => seq![
                (
                    field,
                    "the value `"@ + spec_value_text(
                        match value {
                            FieldValueView::Scalar(v) => v,
                            _ => ValueView::Null,
                        },
                    ) + "` is not unique"@,
                ),
            ],
        },
        ConstraintView::ReferenceSingle { field, .. } => match answer {
            CheckAnswer::Found(n) => if n == 1 {
                Seq::<(Seq<char>, Seq<char>)>::empty()
            } else {
                seq![(field, "it is a nonexistent value"@)]
            },
            _ => seq![(field, "it is a nonexistent value"@)],
        },
        ConstraintView::ReferenceList { field } => match (value, answer) {
            (FieldValueView::List(items), CheckAnswer::Found(n)) => if n == items.len() {
                Seq::<(Seq<char>, Seq<char>)>::empty()
            } else {
                seq![(field, "there are nonexistent values"@)]
            },
            _ => seq![(field, "there are nonexistent values"@)],
        },
        ConstraintView::Format { field, .. } => match answer {
            CheckAnswer::Holds(true) => Seq::<(Seq<char>, Seq<char>)>::empty(),
            _ => seq![(field, "invalid format"@)],
        },
        ConstraintView::NotNullText { field } => match value {
            FieldValueView::Scalar(ValueView::Text(s)) => if s.len() == 0 {
                seq![(field, "it should be nonempty"@)]
            } else {
                Seq::<(Seq<char>, Seq<char>)>::empty()
            },
            _ => Seq::<(Seq<char>, Seq<char>)>::empty(),
        },
        ConstraintView::NotNullId { field } => match value {
            FieldValueView::Scalar(ValueView::Text(s)) => if s == spec_nil_id() {
                seq![(field, "it should not be nil"@)]
            } else {
                Seq::<(Seq<char>, Seq<char>)>::empty()
            },
            _ => Seq::<(Seq<char>, Seq<char>)>::empty(),
        },
        ConstraintView::Nonempty { field } => {
            let empty = match value {
                FieldValueView::Scalar(ValueView::Text(s)) => s.len() == 0,
                FieldValueView::List(items) => items.len() == 0,
                FieldValueView::Mapping(entries) => entries.len() == 0,
                _ => false,
            };
            if empty {
                seq![(field, "it should be nonempty"@)]
            } else {
                Seq::<(Seq<char>, Seq<char>)>::empty()
            }
        },
        ConstraintView::ExactLength { field, length } => match value {
            FieldValueView::Scalar(ValueView::Text(s)) => if s.len() != length {
                seq![
                    (field, "the length should be "@ + spec_format_u64(length as u64)),
                ]
            } else {
                Seq::<(Seq<char>, Seq<char>)>::empty()
            },
            _ => Seq::<(Seq<char>, Seq<char>)>::empty(),
        },
        ConstraintView::MaxLength { field, length } => match value {
            FieldValueView::Scalar(ValueView::Text(s)) => if s.len() > length {
                seq![
                    (
                        field,
                        "the length should be at most "@ + spec_format_u64(length as u64),
                    ),
                ]
            } else {
                Seq::<(Seq<char>, Seq<char>)>::empty()
            },
            _ => Seq::<(Seq<char>, Seq<char>)>::empty(),
        },
        ConstraintView::MinLength { field, length } => match value {
            FieldValueView::Scalar(ValueView::Text(s)) => if s.len() < length {
                seq![
                    (
                        field,
                        "the length should be at least "@ + spec_format_u64(length as u64),
                    ),
                ]
            } else {
                Seq::<(Seq<char>, Seq<char>)>::empty()
            },
            _ => Seq::<(Seq<char>, Seq<char>)>::empty(),
        },
        ConstraintView::MaxItems { field, length } => match value {
            FieldValueView::List(items) => if items.len() > length {
                seq![
                    (
                        field,
                        "the length should be at most "@ + spec_format_u64(length as u64),
                    ),
                ]
            } else {
                Seq::<(Seq<char>, Seq<char>)>::empty()
            },
            _ => Seq::<(Seq<char>, Seq<char>)>::empty(),
        },
        ConstraintView::MinItems { field, length } => match value {
            FieldValueView::List(items) => if items.len() < length {
                seq![
                    (
                        field,
                        "the length should be at least "@ + spec_format_u64(length as u64),
                    ),
                ]
            } else {
                Seq::<(Seq<char>, Seq<char>)>::empty()
            },
            _ => Seq::<(Seq<char>, Seq<char>)>::empty(),
        },
        ConstraintView::UniqueItems { field } => match value {
            FieldValueView::List(items) => if spec_has_duplicate(items) {
                seq![(field, "array items should be unique"@)]
            } else {
                Seq::<(Seq<char>, Seq<char>)>::empty()
            },
            _ => Seq::<(Seq<char>, Seq<char>)>::empty(),
        },
    }
}

/// The field a constraint reads its value from.
pub open spec fn spec_constraint_field(c: ConstraintView) -> Seq<char> {
    match c {
        ConstraintView::CompositeUnique { joined, .. } => joined,
        ConstraintView::Unique { field, .. } => field,
        ConstraintView::ReferenceSingle { field, .. } => field,
        ConstraintView::ReferenceList { field } => field,
        ConstraintView::NotNullText { field } => field,
        ConstraintView::NotNullId { field } => field,
        ConstraintView::Nonempty { field } => field,
        ConstraintView::Format { field, .. } => field,
        ConstraintView::ExactLength { field, .. } => field,
        ConstraintView::MaxLength { field, .. } => field,
        ConstraintView::MinLength { field, .. } => field,
        ConstraintView::MaxItems { field, .. } => field,
        ConstraintView::MinItems { field, .. } => field,
        ConstraintView::UniqueItems { field } => field,
    }
}

/// The messages a check that consumes no external answer yields from
/// the field value alone; a check that does consume one yields nothing
/// here.
pub open spec fn spec_check_pure(
    c: ConstraintView,
    value: FieldValueView,
) -> Seq<(Seq<char>, Seq<char>)> {
    match c {
        ConstraintView::CompositeUnique { .. } => Seq::<(Seq<char>, Seq<char>)>::empty(),
        ConstraintView::Unique { .. } => Seq::<(Seq<char>, Seq<char>)>::empty(),
        ConstraintView::ReferenceSingle { .. } => Seq::<(Seq<char>, Seq<char>)>::empty(),
        ConstraintView::ReferenceList { .. } => Seq::<(Seq<char>, Seq<char>)>::empty(),
        ConstraintView::Format { .. } => Seq::<(Seq<char>, Seq<char>)>::empty(),
        _ => spec_check_messages(c, value, CheckAnswer::Holds(true)),
    }
}

/// The messages the whole constraint list yields, consuming one
/// external answer per check that needs one, in constraint order. A
/// check whose answer the caller failed to supply yields nothing.
pub open spec fn spec_run_constraints(
    cs: Seq<ConstraintView>,
    values: Seq<(Seq<char>, FieldValueView)>,
    answers: Seq<CheckAnswer>,
) -> Seq<(Seq<char>, Seq<char>)>
    decreases cs.len(),
{
    if cs.len() == 0 {
        Seq::<(Seq<char>, Seq<char>)>::empty()
    } else {
        let value = spec_field_value(values, spec_constraint_field(cs[0]));
        if spec_needs_answer(cs[0], value) {
            if answers.len() > 0 {
                spec_check_messages(cs[0], value, answers[0]) + spec_run_constraints(
                    cs.drop_first(),
                    values,
                    answers.drop_first(),
                )
            } else {
                spec_run_constraints(cs.drop_first(), values, answers)
            }
        } else {
            spec_check_pure(cs[0], value) + spec_run_constraints(
                cs.drop_first(),
                values,
                answers,
            )
        }
    }
}

/// The text a value is rendered as inside a uniqueness message.
fn value_text(v: &JsonValue) -> (r: String)
    ensures
        r@ == spec_value_text(v@),
{
    match v {
        JsonValue::Text(s) => s.clone(),
        JsonValue::Bool(b) => {
            if *b {
                String::from_str("true")
            } else {
                String::from_str("false")
            }
        },
        JsonValue::Int(n) => {
            let n = *n;
            if n >= 0 {
                format_u64(n as u64)
            } else {
                let magnitude: u64 = if n == i64::MIN {
                    9223372036854775808u64
                } else {
                    (-n) as u64
                };
                let mut s = String::from_str("-");
                let digits = format_u64(magnitude);
                s.append(digits.as_str());
                s
            }
        },
        _ => {
            let empty = String::new();
            proof {
                reveal_strlit("");
                assert(empty@ =~= ""@);
            }
            empty
        },
    }
}

/// Whether two canonical values are equal.
pub fn value_eq(a: &JsonValue, b: &JsonValue) -> (r: bool)
    ensures
        r == (a@ == b@),
{
    match (a, b) {
        (JsonValue::Null, JsonValue::Null) => true,
        (JsonValue::Bool(x), JsonValue::Bool(y)) => x == y,
        (JsonValue::Int(x), JsonValue::Int(y)) => x == y,
        (JsonValue::Float(x), JsonValue::Float(y)) => x == y,
        (JsonValue::Text(x), JsonValue::Text(y)) => str_eq(x.as_str(), y.as_str()),
        (JsonValue::Bytes(x), JsonValue::Bytes(y)) => bytes_eq(x, y),
        _ => false,
    }
}

/// Whether two byte sequences are equal.
fn bytes_eq(a: &Vec<u8>, b: &Vec<u8>) -> (r: bool)
    ensures
        r == (a@ == b@),
{
    if a.len() != b.len() {
        assert(a@ != b@) by {
            assert(a@.len() != b@.len());
        }
        return false;
    }
    let n = a.len();
    let mut i: usize = 0;
    while i < n
        invariant
            n == a@.len(),
            n == b@.len(),
            i <= n,
            forall|j: int| 0 <= j < i ==> a@[j] == b@[j],
        decreases n - i,
    {
        if a[i] != b[i] {
            assert(a@ != b@) by {
                assert(a@[i as int] != b@[i as int]);
            }
            return false;
        }
        i += 1;
    }
    proof {
        assert(a@ =~= b@);
    }
    true
}

/// Whether the items hold two equal values.
pub fn has_duplicates(items: &Vec<JsonValue>) -> (r: bool)
    ensures
        r == spec_has_duplicate(items@.map(|_i: int, v: JsonValue| v@)),
{
    let ghost vs = items@.map(|_i: int, v: JsonValue| v@);
    let n = items.len();
    let mut i: usize = 0;
    while i < n
        invariant
            n == items.len(),
            vs == items@.map(|_i: int, v: JsonValue| v@),
            i <= n,
            forall|a: int, b: int| 0 <= a < i && a < b < n ==> vs[a] != vs[b],
        decreases n - i,
    {
        let mut j = i + 1;
        while j < n
            invariant
                n == items.len(),
                vs == items@.map(|_i: int, v: JsonValue| v@),
                i < j <= n,
                i < n,
                forall|b: int| i < b < j ==> vs[i as int] != vs[b],
            decreases n - j,
        {
            if value_eq(&items[i], &items[j]) {
                proof {
                    assert(vs[i as int] == vs[j as int]);
                }
                return true;
            }
            j += 1;
        }
        i += 1;
    }
    proof {
        if spec_has_duplicate(vs) {
            let (a, b) = choose|a: int, b: int| 0 <= a < b < vs.len() && vs[a] == vs[b];
            assert(vs[a] != vs[b]);
        }
    }
    false
}

/// Whether the check consumes one external answer for these values.
pub fn needs_answer(c: &Constraint, value: &FieldValue) -> (r: bool)
    ensures
        r == spec_needs_answer(c@, value@),
{
    match c {
        Constraint::CompositeUnique { .. } => true,
        Constraint::Unique { kind, .. } => match kind {
            UniqueKind::Id => match value {
                FieldValue::Scalar(JsonValue::Text(s)) => !str_eq(
                    s.as_str(),
                    "00000000-0000-0000-0000-000000000000",
                ),
                _ => false,
            },
            UniqueKind::Text => match value {
                FieldValue::Scalar(JsonValue::Text(s)) => s.as_str().unicode_len() > 0,
                _ => false,
            },
            UniqueKind::Plain => !matches!(value, FieldValue::Missing),
        },
        Constraint::ReferenceSingle { optional, .. } => !(*optional && matches!(
            value,
            FieldValue::Missing,
        )),
        Constraint::ReferenceList { .. } => match value {
            FieldValue::List(items) => items.len() > 0,
            _ => false,
        },
        Constraint::Format { .. } => match value {
            FieldValue::Scalar(JsonValue::Text(s)) => s.as_str().unicode_len() > 0,
            _ => false,
        },
        _ => false,
    }
}

/// The message a check that consumed an external answer records, if
/// its verdict failed.
fn check_with_answer(c: &Constraint, value: &FieldValue, answer: CheckAnswer) -> (r: Option<
    (String, String),
>)
    ensures
        match r {
            Some(p) => spec_check_messages(c@, value@, answer) == seq![(p.0@, p.1@)],
            None => spec_check_messages(c@, value@, answer) == Seq::<
                (Seq<char>, Seq<char>),
            >::empty(),
        },
{
    match c {
        Constraint::CompositeUnique { joined, .. } => match answer {
            CheckAnswer::Holds(true) => None,
            _ => Some(
                (joined.clone(), String::from_str("the composite values should be unique")),
            ),
        },
        Constraint::Unique { field, .. } => match answer {
            CheckAnswer::Holds(true) => None,
            _ => {
                let rendered = match value {
                    FieldValue::Scalar(v) => value_text(v),
                    _ => value_text(&JsonValue::Null),
                };
                let mut message = String::from_str("the value `");
                message.append(rendered.as_str());
                message.append("` is not unique");
                Some((field.clone(), message))
            },
        },
        Constraint::ReferenceSingle { field, .. } => match answer {
            CheckAnswer::Found(n) => {
                if n == 1 {
                    None
                } else {
                    Some((field.clone(), String::from_str("it is a nonexistent value")))
                }
            },
            _ => Some((field.clone(), String::from_str("it is a nonexistent value"))),
        },
        Constraint::ReferenceList { field } => match (value, answer) {
            (FieldValue::List(items), CheckAnswer::Found(n)) => {
                if n == items.len() {
                    None
                } else {
                    Some((field.clone(), String::from_str("there are nonexistent values")))
                }
            },
            _ => Some((field.clone(), String::from_str("there are nonexistent values"))),
        },
        Constraint::Format { field, .. } => match answer {
            CheckAnswer::Holds(true) => None,
            _ => Some((field.clone(), String::from_str("invalid format"))),
        },
        _ => check_pure(c, value),
    }
}

/// The message a check that needs no external answer records from the
/// field value alone, if the value fails it.
fn check_pure(c: &Constraint, value: &FieldValue) -> (r: Option<(String, String)>)
    ensures
        match r {
            Some(p) => spec_check_pure(c@, value@) == seq![(p.0@, p.1@)],
            None => spec_check_pure(c@, value@) == Seq::<(Seq<char>, Seq<char>)>::empty(),
        },
{
    match c {
        Constraint::NotNullText { field } => match value {
            FieldValue::Scalar(JsonValue::Text(s)) => {
                if s.as_str().unicode_len() == 0 {
                    Some((field.clone(), String::from_str("it should be nonempty")))
                } else {
                    None
                }
            },
            _ => None,
        },
        Constraint::NotNullId { field } => match value {
            FieldValue::Scalar(JsonValue::Text(s)) => {
                if str_eq(s.as_str(), "00000000-0000-0000-0000-000000000000") {
                    Some((field.clone(), String::from_str("it should not be nil")))
                } else {
                    None
                }
            },
            _ => None,
        },
        Constraint::Nonempty { field } => {
            let empty = match value {
                FieldValue::Scalar(JsonValue::Text(s)) => s.as_str().unicode_len() == 0,
                FieldValue::List(items) => items.len() == 0,
                FieldValue::Mapping(record) => record.len() == 0,
                _ => false,
            };
            if empty {
                Some((field.clone(), String::from_str("it should be nonempty")))
            } else {
                None
            }
        },
        Constraint::ExactLength { field, length } => match value {
            FieldValue::Scalar(JsonValue::Text(s)) => {
                if s.as_str().unicode_len() != *length {
                    let mut message = String::from_str("the length should be ");
                    let digits = format_u64(*length as u64);
                    message.append(digits.as_str());
                    Some((field.clone(), message))
                } else {
                    None
                }
            },
            _ => None,
        },
        Constraint::MaxLength { field, length } => match value {
            FieldValue::Scalar(JsonValue::Text(s)) => {
                if s.as_str().unicode_len() > *length {
                    let mut message = String::from_str("the length should be at most ");
                    let digits = format_u64(*length as u64);
                    message.append(digits.as_str());
                    Some((field.clone(), message))
                } else {
                    None
                }
            },
            _ => None,
        },
        Constraint::MinLength { field, length } => match value {
            FieldValue::Scalar(JsonValue::Text(s)) => {
                if s.as_str().unicode_len() < *length {
                    let mut message = String::from_str("the length should be at least ");
                    let digits = format_u64(*length as u64);
                    message.append(digits.as_str());
                    Some((field.clone(), message))
                } else {
                    None
                }
            },
            _ => None,
        },
        Constraint::MaxItems { field, length } => match value {
            FieldValue::List(items) => {
                if items.len() > *length {
                    let mut message = String::from_str("the length should be at most ");
                    let digits = format_u64(*length as u64);
                    message.append(digits.as_str());
                    Some((field.clone(), message))
                } else {
                    None
                }
            },
            _ => None,
        },
        Constraint::MinItems { field, length } => match value {
            FieldValue::List(items) => {
                if items.len() < *length {
                    let mut message = String::from_str("the length should be at least ");
                    let digits = format_u64(*length as u64);
                    message.append(digits.as_str());
                    Some((field.clone(), message))
                } else {
                    None
                }
            },
            _ => None,
        },
        Constraint::UniqueItems { field } => match value {
            FieldValue::List(items) => {
                if has_duplicates(items) {
                    Some((field.clone(), String::from_str("array items should be unique")))
                } else {
                    None
                }
            },
            _ => None,
        },
        _ => None,
    }
}

/// The field a constraint reads its value from.
fn constraint_field<'a>(c: &'a Constraint) -> (r: &'a String)
    ensures
        r@ == spec_constraint_field(c@),
{
    match c {
        Constraint::CompositeUnique { joined, .. } => joined,
        Constraint::Unique { field, .. } => field,
        Constraint::ReferenceSingle { field, .. } => field,
        Constraint::ReferenceList { field } => field,
        Constraint::NotNullText { field } => field,
        Constraint::NotNullId { field } => field,
        Constraint::Nonempty { field } => field,
        Constraint::Format { field, .. } => field,
        Constraint::ExactLength { field, .. } => field,
        Constraint::MaxLength { field, .. } => field,
        Constraint::MinLength { field, .. } => field,
        Constraint::MaxItems { field, .. } => field,
        Constraint::MinItems { field, .. } => field,
        Constraint::UniqueItems { field } => field,
    }
}

/// The message the primary key contributes: a default-valued key on a
/// column that is not auto-increment should not be persisted.
pub open spec fn spec_primary_key_messages(
    primary_key_name: Seq<char>,
    is_default: bool,
    auto_increment: bool,
) -> Seq<(Seq<char>, Seq<char>)> {
    if is_default && !auto_increment {
        seq![(primary_key_name, "should not be a default value"@)]
    } else {
        Seq::<(Seq<char>, Seq<char>)>::empty()
    }
}

/// Runs every constraint check, in order: first the primary-key default
/// check, then the composite and field constraints, consuming one
/// external answer per check that needs one. Every failing check
/// contributes exactly one message; nothing short-circuits.
pub fn check_constraints(
    primary_key_name: &str,
    primary_key_is_default: bool,
    primary_key_auto_increment: bool,
    constraints: &Vec<Constraint>,
    values: &FieldValues,
    answers: &Vec<CheckAnswer>,
) -> (v: Validation)
    ensures
        v@ == spec_primary_key_messages(
            primary_key_name@,
            primary_key_is_default,
            primary_key_auto_increment,
        ) + spec_run_constraints(
            constraints@.map(|_i: int, c: Constraint| c@),
            values@,
            answers@,
        ),
{
    let ghost csv = constraints@.map(|_i: int, c: Constraint| c@);
    let ghost pk_msgs = spec_primary_key_messages(
        primary_key_name@,
        primary_key_is_default,
        primary_key_auto_increment,
    );
    let mut validation = Validation::new();
    if primary_key_is_default && !primary_key_auto_increment {
        validation.record(
            primary_key_name.to_owned(),
            String::from_str("should not be a default value"),
        );
    }
    proof {
        assert(validation@ =~= pk_msgs);
        assert(csv.skip(0) =~= csv);
        assert(answers@.skip(0) =~= answers@);
    }
    let n = constraints.len();
    let total_answers = answers.len();
    let mut i: usize = 0;
    let mut ai: usize = 0;
    while i < n
        invariant
            n == constraints.len(),
            total_answers == answers.len(),
            csv == constraints@.map(|_i: int, c: Constraint| c@),
            i <= n,
            ai <= total_answers,
            validation@ + spec_run_constraints(
                csv.skip(i as int),
                values@,
                answers@.skip(ai as int),
            ) =~= pk_msgs + spec_run_constraints(csv, values@, answers@),
        decreases n - i,
    {
        proof {
            assert(csv.skip(i as int)[0] == csv[i as int]);
            assert(csv.skip(i as int).drop_first() =~= csv.skip(i + 1));
        }
        let c = &constraints[i];
        let field = constraint_field(c);
        let missing = FieldValue::Missing;
        let value = match values.get(field.as_str()) {
            Some(v) => v,
            None => &missing,
        };
        let needed = needs_answer(c, value);
        let ghost prev = validation@;
        if needed {
            if ai < total_answers {
                proof {
                    assert(answers@.skip(ai as int)[0] == answers@[ai as int]);
                    assert(answers@.skip(ai as int).drop_first() =~= answers@.skip(ai + 1));
                }
                match check_with_answer(c, value, answers[ai]) {
                    Some(p) => {
                        validation.record(p.0, p.1);
                    },
                    None => {},
                }
                ai += 1;
            }
        } else {
            match check_pure(c, value) {
                Some(p) => {
                    validation.record(p.0, p.1);
                },
                None => {},
            }
        }
        i += 1;
    }
    proof {
        assert(csv.skip(n as int) =~= Seq::<ConstraintView>::empty());
        assert(validation@ + Seq::<(Seq<char>, Seq<char>)>::empty() =~= validation@);
        assert(validation@ =~= pk_msgs + spec_run_constraints(csv, values@, answers@));
    }
    validation
}

/// The composite-uniqueness constraint a `unique_on` attribute value
/// denotes: the value, with surrounding parentheses removed, splits on
/// commas into field names, trimmed of spaces; a failure is recorded
/// under the names joined with underscores.
pub open spec fn spec_composite_fields(value: Seq<char>) -> Seq<Seq<char>> {
    spec_trim_all(
        spec_split(spec_trim_end(spec_trim_start(value, '('), ')'), ','),
    )
}

/// Parses a `unique_on` attribute value into its composite constraint.
pub fn parse_unique_on(value: &str) -> (r: Constraint)
    ensures
        r@ == (ConstraintView::CompositeUnique {
            fields: spec_composite_fields(value@),
            joined: spec_join(spec_composite_fields(value@), '_'),
        }),
{
    let trimmed = trim_pair(value, '(', ')');
    let pieces = split_char(trimmed.as_str(), ',');
    let fields = trim_all(&pieces);
    proof {
        reveal_strlit("_");
        assert("_"@ =~= seq!['_']);
    }
    let joined = join_char(&fields, '_', "_");
    Constraint::CompositeUnique { fields, joined }
}

/// The composite constraints of the model-level attributes, in order.
pub open spec fn spec_composite_constraints(attrs: Seq<AttrView>) -> Seq<ConstraintView>
    decreases attrs.len(),
{
    if attrs.len() == 0 {
        Seq::<ConstraintView>::empty()
    } else {
        spec_composite_constraints(attrs.drop_last()) + (
        if attrs.last().key == "unique_on"@ && attrs.last().value is Some {
            seq![
                ConstraintView::CompositeUnique {
                    fields: spec_composite_fields(attrs.last().value.unwrap()),
                    joined: spec_join(
                        spec_composite_fields(attrs.last().value.unwrap()),
                        '_',
                    ),
                },
            ]
        } else {
            Seq::<ConstraintView>::empty()
        })
    }
}

/// The bound an attribute literal sets: its value as an unsigned
/// number, or zero for a missing or malformed literal.
pub open spec fn spec_attr_bound(value: Option<Seq<char>>) -> usize {
    match value {
        Some(s) => if spec_is_int_literal(s) && !spec_is_negative(s) && spec_int_literal_value(
            s,
        ) <= usize::MAX {
            spec_int_literal_value(s) as usize
        } else {
            0
        },
        None => 0,
    }
}

/// Whether an items-count attribute takes effect: only for a literal
/// that parses as an unsigned number.
pub open spec fn spec_attr_bound_parses(value: Option<Seq<char>>) -> bool {
    match value {
        Some(s) => spec_is_int_literal(s) && !spec_is_negative(s) && spec_int_literal_value(s)
            <= usize::MAX,
        None => false,
    }
}

/// The constraint one field attribute contributes, gated on the
/// field's declared logical type.
pub open spec fn spec_attr_constraint(
    f: FieldDeclarationView,
    a: AttrView,
    readable: bool,
) -> Seq<ConstraintView> {
    let t = f.field_type;
    if a.key == "reference"@ {
        if a.value is Some {
            if t == "Uuid"@ {
                seq![ConstraintView::ReferenceSingle { field: f.name, optional: false }]
            } else if t == "Option<Uuid>"@ || t == "Option<String>"@ {
                seq![ConstraintView::ReferenceSingle { field: f.name, optional: true }]
            } else if t == "Vec<Uuid>"@ || t == "Vec<String>"@ || spec_is_vec_type(t) {
                seq![ConstraintView::ReferenceList { field: f.name }]
            } else if spec_is_option_type(t) {
                seq![ConstraintView::ReferenceSingle { field: f.name, optional: true }]
            } else {
                seq![ConstraintView::ReferenceSingle { field: f.name, optional: false }]
            }
        } else {
            Seq::<ConstraintView>::empty()
        }
    } else if a.key == "unique"@ {
        let kind = if t == "Uuid"@ || t == "Option<Uuid>"@ {
            UniqueKind::Id
        } else if t == "String"@ || t == "Option<String>"@ {
            UniqueKind::Text
        } else {
            UniqueKind::Plain
        };
        seq![ConstraintView::Unique { field: f.name, kind: kind }]
    } else if a.key == "not_null"@ {
        if readable && t == "String"@ {
            seq![ConstraintView::NotNullText { field: f.name }]
        } else if readable && t == "Uuid"@ {
            seq![ConstraintView::NotNullId { field: f.name }]
        } else {
            Seq::<ConstraintView>::empty()
        }
    } else if a.key == "nonempty"@ {
        if readable && (spec_is_vec_type(t) || t == "String"@ || t == "Map"@) {
            seq![ConstraintView::Nonempty { field: f.name }]
        } else {
            Seq::<ConstraintView>::empty()
        }
    } else if a.key == "format"@ {
        if t == "String"@ && a.value is Some {
            seq![ConstraintView::Format { field: f.name, format: a.value.unwrap() }]
        } else {
            Seq::<ConstraintView>::empty()
        }
    } else if a.key == "length"@ {
        if t == "String"@ || t == "Option<String>"@ {
            seq![
                ConstraintView::ExactLength {
                    field: f.name,
                    length: spec_attr_bound(a.value),
                },
            ]
        } else {
            Seq::<ConstraintView>::empty()
        }
    } else if a.key == "max_length"@ {
        if t == "String"@ || t == "Option<String>"@ {
            seq![
                ConstraintView::MaxLength { field: f.name, length: spec_attr_bound(a.value) },
            ]
        } else {
            Seq::<ConstraintView>::empty()
        }
    } else if a.key == "min_length"@ {
        if t == "String"@ || t == "Option<String>"@ {
            seq![
                ConstraintView::MinLength { field: f.name, length: spec_attr_bound(a.value) },
            ]
        } else {
            Seq::<ConstraintView>::empty()
        }
    } else if a.key == "max_items"@ {
        if spec_attr_bound_parses(a.value) && spec_is_vec_type(t) {
            seq![
                ConstraintView::MaxItems { field: f.name, length: spec_attr_bound(a.value) },
            ]
        } else {
            Seq::<ConstraintView>::empty()
        }
    } else if a.key == "min_items"@ {
        if spec_attr_bound_parses(a.value) && spec_is_vec_type(t) {
            seq![
                ConstraintView::MinItems { field: f.name, length: spec_attr_bound(a.value) },
            ]
        } else {
            Seq::<ConstraintView>::empty()
        }
    } else if a.key == "unique_items"@ {
        if spec_is_vec_type(t) {
            seq![ConstraintView::UniqueItems { field: f.name }]
        } else {
            Seq::<ConstraintView>::empty()
        }
    } else {
        Seq::<ConstraintView>::empty()
    }
}

/// Whether the field is readable: it carries no `write_only` attribute.
pub open spec fn spec_field_readable(f: FieldDeclarationView) -> bool {
    forall|i: int| 0 <= i < f.attrs.len() ==> (#[trigger] f.attrs[i]).key != "write_only"@
}

/// The constraints of one field's attributes, in source order.
pub open spec fn spec_field_constraints(
    f: FieldDeclarationView,
    attrs: Seq<AttrView>,
    readable: bool,
) -> Seq<ConstraintView>
    decreases attrs.len(),
{
    if attrs.len() == 0 {
        Seq::<ConstraintView>::empty()
    } else {
        spec_field_constraints(f, attrs.drop_last(), readable) + spec_attr_constraint(
            f,
            attrs.last(),
            readable,
        )
    }
}

/// The constraints of a whole model: the composite constraints of the
/// model-level attributes, then each field's constraints in field
/// order.
pub open spec fn spec_derive_constraints(
    model_attrs: Seq<AttrView>,
    fields: Seq<FieldDeclarationView>,
) -> Seq<ConstraintView>
    decreases fields.len(),
{
    if fields.len() == 0 {
        spec_composite_constraints(model_attrs)
    } else {
        spec_derive_constraints(model_attrs, fields.drop_last()) + spec_field_constraints(
            fields.last(),
            fields.last().attrs,
            spec_field_readable(fields.last()),
        )
    }
}

/// Whether the field is readable: it carries no `write_only` attribute.
pub fn field_readable(f: &FieldDeclaration) -> (r: bool)
    ensures
        r == spec_field_readable(f@),
{
    let n = f.attrs.len();
    let mut i: usize = 0;
    while i < n
        invariant
            n == f.attrs.len(),
            i <= n,
            forall|j: int| 0 <= j < i ==> (#[trigger] f@.attrs[j]).key != "write_only"@,
        decreases n - i,
    {
        if str_eq(f.attrs[i].key.as_str(), "write_only") {
            proof {
                assert(f@.attrs[i as int].key == "write_only"@);
            }
            return false;
        }
        i += 1;
    }
    true
}

/// The bound an attribute literal sets, and whether it parsed.
fn attr_bound(value: &Option<String>) -> (r: (usize, bool))
    ensures
        r.0 == spec_attr_bound(
            match value {
                Some(v) => Some(v@),
                None => None,
            },
        ),
        r.1 == spec_attr_bound_parses(
            match value {
                Some(v) => Some(v@),
                None => None,
            },
        ),
{
    match value {
        Some(s) => {
            match parse_usize(s.as_str()) {
                Some(n) => (n, true),
                None => (0, false),
            }
        },
        None => (0, false),
    }
}

/// The constraint one field attribute contributes.
fn attr_constraint(f: &FieldDeclaration, a: &Attr, readable: bool) -> (r: Option<Constraint>)
    ensures
        match r {
            Some(c) => spec_attr_constraint(f@, a@, readable) == seq![c@],
            None => spec_attr_constraint(f@, a@, readable) == Seq::<ConstraintView>::empty(),
        },
{
    let key = a.key.as_str();
    let t = f.field_type.as_str();
    if str_eq(key, "reference") {
        match a.value {
            Some(_) => {
                if str_eq(t, "Uuid") {
                    Some(
                        Constraint::ReferenceSingle { field: f.name.clone(), optional: false },
                    )
                } else if str_eq(t, "Option<Uuid>") || str_eq(t, "Option<String>") {
                    Some(
                        Constraint::ReferenceSingle { field: f.name.clone(), optional: true },
                    )
                } else if str_eq(t, "Vec<Uuid>") || str_eq(t, "Vec<String>") || is_vec_type(t) {
                    Some(Constraint::ReferenceList { field: f.name.clone() })
                } else if is_option_type(t) {
                    Some(
                        Constraint::ReferenceSingle { field: f.name.clone(), optional: true },
                    )
                } else {
                    Some(
                        Constraint::ReferenceSingle { field: f.name.clone(), optional: false },
                    )
                }
            },
            None => None,
        }
    } else if str_eq(key, "unique") {
        let kind = if str_eq(t, "Uuid") || str_eq(t, "Option<Uuid>") {
            UniqueKind::Id
        } else if str_eq(t, "String") || str_eq(t, "Option<String>") {
            UniqueKind::Text
        } else {
            UniqueKind::Plain
        };
        Some(Constraint::Unique { field: f.name.clone(), kind })
    } else if str_eq(key, "not_null") {
        if readable && str_eq(t, "String") {
            Some(Constraint::NotNullText { field: f.name.clone() })
        } else if readable && str_eq(t, "Uuid") {
            Some(Constraint::NotNullId { field: f.name.clone() })
        } else {
            None
        }
    } else if str_eq(key, "nonempty") {
        if readable && (is_vec_type(t) || str_eq(t, "String") || str_eq(t, "Map")) {
            Some(Constraint::Nonempty { field: f.name.clone() })
        } else {
            None
        }
    } else if str_eq(key, "format") {
        match a.value {
            Some(ref v) => {
                if str_eq(t, "String") {
                    Some(
                        Constraint::Format { field: f.name.clone(), format: v.clone() },
                    )
                } else {
                    None
                }
            },
            None => None,
        }
    } else if str_eq(key, "length") {
        if str_eq(t, "String") || str_eq(t, "Option<String>") {
            let (length, _) = attr_bound(&a.value);
            Some(Constraint::ExactLength { field: f.name.clone(), length })
        } else {
            None
        }
    } else if str_eq(key, "max_length") {
        if str_eq(t, "String") || str_eq(t, "Option<String>") {
            let (length, _) = attr_bound(&a.value);
            Some(Constraint::MaxLength { field: f.name.clone(), length })
        } else {
            None
        }
    } else if str_eq(key, "min_length") {
        if str_eq(t, "String") || str_eq(t, "Option<String>") {
            let (length, _) = attr_bound(&a.value);
            Some(Constraint::MinLength { field: f.name.clone(), length })
        } else {
            None
        }
    } else if str_eq(key, "max_items") {
        let (length, parsed) = attr_bound(&a.value);
        if parsed && is_vec_type(t) {
            Some(Constraint::MaxItems { field: f.name.clone(), length })
        } else {
            None
        }
    } else if str_eq(key, "min_items") {
        let (length, parsed) = attr_bound(&a.value);
        if parsed && is_vec_type(t) {
            Some(Constraint::MinItems { field: f.name.clone(), length })
        } else {
            None
        }
    } else if str_eq(key, "unique_items") {
        if is_vec_type(t) {
            Some(Constraint::UniqueItems { field: f.name.clone() })
        } else {
            None
        }
    } else {
        None
    }
}

/// Derives every constraint of a model declaration: the composite
/// constraints of the model-level `unique_on` attributes, then each
/// field's constraints in declaration order.
pub fn derive_constraints(model: &ModelDeclaration) -> (r: Vec<Constraint>)
    ensures
        r@.map(|_i: int, c: Constraint| c@) == spec_derive_constraints(
            model.attrs@.map(|_i: int, a: Attr| a@),
            model.fields@.map(|_i: int, f: FieldDeclaration| f@),
        ),
{
    let ghost mav = model.attrs@.map(|_i: int, a: Attr| a@);
    let ghost fv = model.fields@.map(|_i: int, f: FieldDeclaration| f@);
    let mut constraints: Vec<Constraint> = Vec::new();
    let n = model.attrs.len();
    let mut i: usize = 0;
    while i < n
        invariant
            n == model.attrs.len(),
            mav == model.attrs@.map(|_i: int, a: Attr| a@),
            i <= n,
            constraints@.map(|_i: int, c: Constraint| c@) == spec_composite_constraints(
                mav.take(i as int),
            ),
        decreases n - i,
    {
        proof {
            assert(mav.take(i + 1).drop_last() =~= mav.take(i as int));
            assert(mav.take(i + 1).last() == mav[i as int]);
        }
        let ghost before = constraints@.map(|_i: int, c: Constraint| c@);
        if str_eq(model.attrs[i].key.as_str(), "unique_on") {
            match model.attrs[i].value {
                Some(ref v) => {
                    let c = parse_unique_on(v.as_str());
                    let ghost cv = c@;
                    constraints.push(c);
                    proof {
                        assert(constraints@.map(|_i: int, c: Constraint| c@) =~= before + seq![
                            cv,
                        ]);
                    }
                },
                None => {},
            }
        }
        i += 1;
    }
    proof {
        assert(mav.take(n as int) =~= mav);
        assert(fv.take(0) =~= Seq::<FieldDeclarationView>::empty());
    }
    let field_count = model.fields.len();
    let mut k: usize = 0;
    while k < field_count
        invariant
            field_count == model.fields.len(),
            mav == model.attrs@.map(|_i: int, a: Attr| a@),
            fv == model.fields@.map(|_i: int, f: FieldDeclaration| f@),
            k <= field_count,
            constraints@.map(|_i: int, c: Constraint| c@) == spec_derive_constraints(
                mav,
                fv.take(k as int),
            ),
        decreases field_count - k,
    {
        proof {
            assert(fv.take(k + 1).drop_last() =~= fv.take(k as int));
            assert(fv.take(k + 1).last() == fv[k as int]);
        }
        let field = &model.fields[k];
        let readable = field_readable(field);
        let ghost av = field@.attrs;
        let attr_count = field.attrs.len();
        let mut j: usize = 0;
        while j < attr_count
            invariant
                attr_count == field.attrs.len(),
                av == field@.attrs,
                readable == spec_field_readable(field@),
                j <= attr_count,
                constraints@.map(|_i: int, c: Constraint| c@) == spec_derive_constraints(
                    mav,
                    fv.take(k as int),
                ) + spec_field_constraints(field@, av.take(j as int), readable),
                mav == model.attrs@.map(|_i: int, a: Attr| a@),
                fv == model.fields@.map(|_i: int, f: FieldDeclaration| f@),
                field_count == model.fields.len(),
                k < field_count,
                field@ == fv[k as int],
            decreases attr_count - j,
        {
            proof {
                assert(av.take(j + 1).drop_last() =~= av.take(j as int));
                assert(av.take(j + 1).last() == av[j as int]);
                if j == 0 {
                    assert(av.take(0) =~= Seq::<AttrView>::empty());
                    assert(constraints@.map(|_i: int, c: Constraint| c@) =~= spec_derive_constraints(
                        mav,
                        fv.take(k as int),
                    ) + spec_field_constraints(field@, av.take(0), readable));
                }
            }
            let ghost before = constraints@.map(|_i: int, c: Constraint| c@);
            match attr_constraint(field, &field.attrs[j], readable) {
                Some(c) => {
                    let ghost cv = c@;
                    constraints.push(c);
                    proof {
                        assert(constraints@.map(|_i: int, c: Constraint| c@) =~= before + seq![
                            cv,
                        ]);
                    }
                },
                None => {
                    proof {
                        assert(constraints@.map(|_i: int, c: Constraint| c@) =~= before + Seq::<
                            ConstraintView,
                        >::empty());
                    }
                },
            }
            j += 1;
        }
        proof {
            assert(av.take(attr_count as int) =~= av);
        }
        k += 1;
    }
    proof {
        assert(fv.take(field_count as int) =~= fv);
    }
    constraints
}

/// A failing composite-uniqueness probe records exactly one message,
/// under the joined field name; a passing one records none.
pub proof fn lemma_composite_unique_check(
    fields: Seq<Seq<char>>,
    joined: Seq<char>,
    values: Seq<(Seq<char>, FieldValueView)>,
    is_unique: bool,
)
    ensures
        spec_run_constraints(
            seq![ConstraintView::CompositeUnique { fields, joined }],
            values,
            seq![CheckAnswer::Holds(is_unique)],
        ) == (if is_unique {
            Seq::<(Seq<char>, Seq<char>)>::empty()
        } else {
            seq![(joined, "the composite values should be unique"@)]
        }),
{
    let cs = seq![ConstraintView::CompositeUnique { fields, joined }];
    let answers = seq![CheckAnswer::Holds(is_unique)];
    assert(cs.drop_first() =~= Seq::<ConstraintView>::empty());
    assert(spec_run_constraints(cs.drop_first(), values, answers.drop_first()) =~= Seq::<
        (Seq<char>, Seq<char>),
    >::empty());
    if is_unique {
        assert(spec_run_constraints(cs, values, answers) =~= Seq::<
            (Seq<char>, Seq<char>),
        >::empty());
    } else {
        assert(spec_run_constraints(cs, values, answers) =~= seq![
            (joined, "the composite values should be unique"@),
        ]);
    }
}

/// A reference over a sequence of identifiers: an empty list is
/// vacuously valid and consumes no probe; a nonempty list whose probe
/// finds fewer or more rows than it supplied identifiers records
/// exactly one message for that field.
pub proof fn lemma_reference_list_check(
    field: Seq<char>,
    items: Seq<ValueView>,
    values: Seq<(Seq<char>, FieldValueView)>,
    found: usize,
)
    requires
        spec_field_value(values, field) == FieldValueView::List(items),
    ensures
        items.len() == 0 ==> forall|answers: Seq<CheckAnswer>|
            spec_run_constraints(
                seq![ConstraintView::ReferenceList { field }],
                values,
                answers,
            ) == Seq::<(Seq<char>, Seq<char>)>::empty(),
        items.len() > 0 ==> spec_run_constraints(
            seq![ConstraintView::ReferenceList { field }],
            values,
            seq![CheckAnswer::Found(found)],
        ) == (if found == items.len() {
            Seq::<(Seq<char>, Seq<char>)>::empty()
        } else {
            seq![(field, "there are nonexistent values"@)]
        }),
{
    let cs = seq![ConstraintView::ReferenceList { field }];
    assert(cs.drop_first() =~= Seq::<ConstraintView>::empty());
    if items.len() == 0 {
        assert forall|answers: Seq<CheckAnswer>|
            spec_run_constraints(cs, values, answers) == Seq::<
                (Seq<char>, Seq<char>),
            >::empty() by {
            assert(!spec_needs_answer(cs[0], FieldValueView::List(items)));
            assert(spec_run_constraints(cs.drop_first(), values, answers) =~= Seq::<
                (Seq<char>, Seq<char>),
            >::empty());
            assert(spec_run_constraints(cs, values, answers) =~= Seq::<
                (Seq<char>, Seq<char>),
            >::empty());
        }
    } else {
        let answers = seq![CheckAnswer::Found(found)];
        assert(spec_run_constraints(cs.drop_first(), values, answers.drop_first()) =~= Seq::<
            (Seq<char>, Seq<char>),
        >::empty());
        if found == items.len() {
            assert(spec_run_constraints(cs, values, answers) =~= Seq::<
                (Seq<char>, Seq<char>),
            >::empty());
        } else {
            assert(spec_run_constraints(cs, values, answers) =~= seq![
                (field, "there are nonexistent values"@),
            ]);
        }
    }
}

} // verus!
