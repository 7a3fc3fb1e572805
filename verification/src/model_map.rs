//! Populating a model from an untrusted key-value map: which fields may
//! be set at all, how each declared type coerces the incoming value,
//! and the validation messages malformed values accumulate.

use vstd::prelude::*;
use crate::constraint::{FieldValue, FieldValues, FieldValueView, Validation, spec_field_value};
use crate::meta::{
    FieldDeclaration, FieldDeclarationView, spec_is_reserved_field, is_reserved_field,
};
use crate::dialect::{is_option_type, is_vec_type, spec_is_option_type, spec_is_vec_type};
use crate::strutil::{parse_i64, spec_is_int_literal, spec_int_literal_value, str_eq};
use crate::value::{JsonValue, ValueView};

verus! {

/// The numeric shape a parsed setter narrows into.
#[derive(Clone, Copy, Debug, PartialEq, Eq, Structural)]
pub enum ParseKind {
    U64,
    U32,
    U16,
    U8,
    I64,
    I32,
    Bool,
    Other,
}

/// How one declared field reads its value out of the incoming map.
#[derive(Clone, Copy, Debug, PartialEq, Eq, Structural)]
pub enum SetterPlan {
    /// Read-only, generated or reserved: never set from the map.
    Disabled,
    /// The password field: stored as handed in; encrypting it is the
    /// caller's step before the map reaches this layer.
    Password,
    /// A string field: set from a string value, silently skipping any
    /// other shape.
    Text,
    /// An optional string field.
    OptionalText,
    /// A list of strings: set when every item is a string.
    TextList,
    /// A mapping field.
    Mapping,
    /// Any other sequence field.
    List,
    /// A parsed scalar; a present but malformed value records a
    /// validation message.
    Parsed(ParseKind),
}

/// Whether the field may never be set from the map: a `read_only`,
/// `generated` or `reserved` attribute, or a reserved field name.
pub open spec fn spec_setter_disabled(f: FieldDeclarationView) -> bool {
    ||| spec_is_reserved_field(f.name)
    ||| exists|i: int|
        0 <= i < f.attrs.len() && ((#[trigger] f.attrs[i]).key == "read_only"@ || f.attrs[
            i
        ].key == "generated"@ || f.attrs[i].key == "reserved"@)
}

/// The numeric shape of a declared type.
pub open spec fn spec_parse_kind(t: Seq<char>) -> ParseKind {
    if t == "u64"@ || t == "usize"@ {
        ParseKind::U64
    } else if t == "u32"@ {
        ParseKind::U32
    } else if t == "u16"@ {
        ParseKind::U16
    } else if t == "u8"@ {
        ParseKind::U8
    } else if t == "i32"@ || t == "i16"@ || t == "i8"@ {
        ParseKind::I32
    } else if t == "i64"@ || t == "isize"@ {
        ParseKind::I64
    } else if t == "bool"@ {
        ParseKind::Bool
    } else {
        ParseKind::Other
    }
}

/// The inner type of an optional type.
pub open spec fn spec_option_inner(t: Seq<char>) -> Seq<char> {
    t.subrange(7, t.len() - 1)
}

/// The setter plan of one declared field.
pub open spec fn spec_setter_plan(f: FieldDeclarationView) -> SetterPlan {
    if spec_setter_disabled(f) {
        SetterPlan::Disabled
    } else {
        let t = f.field_type;
        if t == "String"@ {
            if f.name == "password"@ {
                SetterPlan::Password
            } else {
                SetterPlan::Text
            }
        } else if t == "Vec<String>"@ {
            SetterPlan::TextList
        } else if t == "Option<String>"@ {
            SetterPlan::OptionalText
        } else if t == "Map"@ {
            SetterPlan::Mapping
        } else if spec_is_vec_type(t) {
            SetterPlan::List
        } else if spec_is_option_type(t) {
            SetterPlan::Parsed(spec_parse_kind(spec_option_inner(t)))
        } else {
            SetterPlan::Parsed(spec_parse_kind(t))
        }
    }
}

/// Whether every item of a list is a string.
pub open spec fn spec_all_text(items: Seq<ValueView>) -> bool {
    forall|i: int| 0 <= i < items.len() ==> (#[trigger] items[i]) matches ValueView::Text(_)
}

/// The numeric value a scalar coerces to under a parse kind: an
/// integer value directly, a string through the decimal literal
/// grammar; nothing when the value is malformed or out of range.
pub open spec fn spec_scalar_number(v: ValueView) -> Option<int> {
    match v {
        ValueView::Int(n) => Some(n as int),
        ValueView::Text(s) => if spec_is_int_literal(s) {
            Some(spec_int_literal_value(s))
        } else {
            None
        },
        _ => None,
    }
}

/// What a parsed setter coerces its incoming scalar to, if anything.
/// The canonical integer is 64-bit signed, so an unsigned value above
/// that range does not fit either.
pub open spec fn spec_parse_scalar(kind: ParseKind, v: ValueView) -> Option<ValueView> {
    match kind {
        ParseKind::Bool => match v {
            ValueView::Bool(b) => Some(ValueView::Bool(b)),
            ValueView::Text(s) => if s == "true"@ {
                Some(ValueView::Bool(true))
            } else if s == "false"@ {
                Some(ValueView::Bool(false))
            } else {
                None
            },
            _ => None,
        },
        ParseKind::Other => match v {
            ValueView::Text(s) => Some(ValueView::Text(s)),
            _ => None,
        },
        _ => {
            let bounds: (int, int) = match kind {
                ParseKind::U64 => (0, i64::MAX as int),
                ParseKind::U32 => (0, u32::MAX as int),
                ParseKind::U16 => (0, u16::MAX as int),
                ParseKind::U8 => (0, u8::MAX as int),
                ParseKind::I64 => (i64::MIN as int, i64::MAX as int),
                _ => (i32::MIN as int, i32::MAX as int),
            };
            match spec_scalar_number(v) {
                Some(n) => if bounds.0 <= n <= bounds.1 {
                    Some(ValueView::Int(n as i64))
                } else {
                    None
                },
                None => None,
            }
        },
    }
}

/// What the setter does with a present value: store the coerced value,
/// record a message, or silently skip a value of the wrong shape.
pub enum SetterOutcome {
    Store(FieldValueView),
    RecordError,
    Skip,
}

/// The outcome of one setter on a present value.
pub open spec fn spec_setter_outcome(plan: SetterPlan, v: FieldValueView) -> SetterOutcome {
    match plan {
        SetterPlan::Disabled => SetterOutcome::Skip,
        SetterPlan::Password | SetterPlan::Text | SetterPlan::OptionalText => match v {
            FieldValueView::Scalar(ValueView::Text(s)) => SetterOutcome::Store(
                FieldValueView::Scalar(ValueView::Text(s)),
            ),
            _ => SetterOutcome::Skip,
        },
        SetterPlan::TextList => match v {
            FieldValueView::List(items) => if spec_all_text(items) {
                SetterOutcome::Store(FieldValueView::List(items))
            } else {
                SetterOutcome::Skip
            },
            _ => SetterOutcome::Skip,
        },
        SetterPlan::Mapping => match v {
            FieldValueView::Mapping(entries) => SetterOutcome::Store(
                FieldValueView::Mapping(entries),
            ),
            _ => SetterOutcome::Skip,
        },
        SetterPlan::List => match v {
            FieldValueView::List(items) => SetterOutcome::Store(FieldValueView::List(items)),
            _ => SetterOutcome::Skip,
        },
        SetterPlan::Parsed(kind) => match v {
            FieldValueView::Missing => SetterOutcome::Skip,
            FieldValueView::Scalar(s) => match spec_parse_scalar(kind, s) {
                Some(coerced) => SetterOutcome::Store(FieldValueView::Scalar(coerced)),
                None => SetterOutcome::RecordError,
            },
            _ => SetterOutcome::RecordError,
        },
    }
}

/// The message a malformed value records: the raw string value, if it
/// was one, framed in backquotes.
pub open spec fn spec_parse_error_message(v: FieldValueView) -> Seq<char> {
    "fail to parse the value: `"@ + (match v {
        FieldValueView::Scalar(ValueView::Text(s)) => s,
        _ => ""@,
    }) + "`"@
}

/// The model entries after replacing the first entry named `name`, or
/// appending one.
pub open spec fn spec_upsert_field(
    s: Seq<(Seq<char>, FieldValueView)>,
    name: Seq<char>,
    value: FieldValueView,
) -> Seq<(Seq<char>, FieldValueView)>
    decreases s.len(),
{
    if s.len() == 0 {
        seq![(name, value)]
    } else if s[0].0 == name {
        seq![(name, value)] + s.drop_first()
    } else {
        seq![s[0]] + spec_upsert_field(s.drop_first(), name, value)
    }
}

/// The model state and the messages after reading the map through the
/// fields' setters, in declaration order.
pub open spec fn spec_read_map(
    fields: Seq<FieldDeclarationView>,
    data: Seq<(Seq<char>, FieldValueView)>,
    model: Seq<(Seq<char>, FieldValueView)>,
) -> (Seq<(Seq<char>, FieldValueView)>, Seq<(Seq<char>, Seq<char>)>)
    decreases fields.len(),
{
    if fields.len() == 0 {
        (model, Seq::<(Seq<char>, Seq<char>)>::empty())
    } else {
        let done = spec_read_map(fields.drop_last(), data, model);
        let f = fields.last();
        let value = spec_field_value(data, f.name);
        if value == FieldValueView::Missing {
            done
        } else {
            match spec_setter_outcome(spec_setter_plan(f), value) {
                SetterOutcome::Store(coerced) => (
                    spec_upsert_field(done.0, f.name, coerced),
                    done.1,
                ),
                SetterOutcome::RecordError => (
                    done.0,
                    done.1.push((f.name, spec_parse_error_message(value))),
                ),
                SetterOutcome::Skip => done,
            }
        }
    }
}

/// The setter plan of one declared field.
pub fn setter_plan(f: &FieldDeclaration) -> (r: SetterPlan)
    ensures
        r == spec_setter_plan(f@),
{
    let mut disabled = is_reserved_field(f.name.as_str());
    let n = f.attrs.len();
    let mut i: usize = 0;
    while i < n
        invariant
            n == f.attrs.len(),
            i <= n,
            !disabled ==> !spec_is_reserved_field(f@.name),
            disabled == (spec_is_reserved_field(f@.name) || exists|j: int|
                0 <= j < i && ((#[trigger] f@.attrs[j]).key == "read_only"@ || f@.attrs[j].key
                    == "generated"@ || f@.attrs[j].key == "reserved"@)),
        decreases n - i,
    {
        let key = f.attrs[i].key.as_str();
        if str_eq(key, "read_only") || str_eq(key, "generated") || str_eq(key, "reserved") {
            proof {
                assert((f@.attrs[i as int].key == "read_only"@ || f@.attrs[i as int].key
                    == "generated"@ || f@.attrs[i as int].key == "reserved"@));
            }
            disabled = true;
        }
        i += 1;
    }
    proof {
        assert(disabled == spec_setter_disabled(f@));
    }
    if disabled {
        return SetterPlan::Disabled;
    }
    let t = f.field_type.as_str();
    if str_eq(t, "String") {
        if str_eq(f.name.as_str(), "password") {
            SetterPlan::Password
        } else {
            SetterPlan::Text
        }
    } else if str_eq(t, "Vec<String>") {
        SetterPlan::TextList
    } else if str_eq(t, "Option<String>") {
        SetterPlan::OptionalText
    } else if str_eq(t, "Map") {
        SetterPlan::Mapping
    } else if is_vec_type(t) {
        SetterPlan::List
    } else if is_option_type(t) {
        proof {
            reveal_strlit("Option<");
            reveal_strlit(">");
            assert(t@.len() >= 7);
            if t@.len() == 7 {
                assert(t@.subrange(0, 7)[6] == t@[6]);
                assert(t@.subrange(t@.len() - 1, t@.len() as int)[0] == t@[6]);
                assert(false);
            }
        }
        let len = t.unicode_len();
        let inner = t.substring_char(7, len - 1);
        proof {
            assert(inner@ == spec_option_inner(f@.field_type));
        }
        SetterPlan::Parsed(parse_kind(inner))
    } else {
        SetterPlan::Parsed(parse_kind(t))
    }
}

proof fn lemma_upsert_field_at(
    s: Seq<(Seq<char>, FieldValueView)>,
    name: Seq<char>,
    value: FieldValueView,
    i: int,
)
    requires
        0 <= i < s.len(),
        s[i].0 == name,
        forall|j: int| 0 <= j < i ==> s[j].0 != name,
    ensures
        spec_upsert_field(s, name, value) =~= s.update(i, (name, value)),
    decreases i,
{
    if i == 0 {
        assert(seq![(name, value)] + s.drop_first() =~= s.update(0, (name, value)));
    } else {
        lemma_upsert_field_at(s.drop_first(), name, value, i - 1);
        assert(seq![s[0]] + s.drop_first().update(i - 1, (name, value)) =~= s.update(
            i,
            (name, value),
        ));
    }
}

proof fn lemma_upsert_field_missing(
    s: Seq<(Seq<char>, FieldValueView)>,
    name: Seq<char>,
    value: FieldValueView,
)
    requires
        forall|j: int| 0 <= j < s.len() ==> s[j].0 != name,
    ensures
        spec_upsert_field(s, name, value) =~= s.push((name, value)),
    decreases s.len(),
{
    if s.len() > 0 {
        lemma_upsert_field_missing(s.drop_first(), name, value);
        assert(seq![s[0]] + s.drop_first().push((name, value)) =~= s.push((name, value)));
    }
}

impl FieldValues {
    /// Replaces the value of the first entry named `name`, or appends a
    /// new entry when none exists yet.
    pub fn upsert(&mut self, name: &str, value: FieldValue)
        ensures
            final(self)@ == spec_upsert_field(old(self)@, name@, value@),
    {
        let ghost sv = old(self)@;
        let n = self.entries.len();
        let mut i: usize = 0;
        while i < n
            invariant
                n == self.entries.len(),
                i <= n,
                self@ == old(self)@,
                sv == old(self)@,
                forall|j: int| 0 <= j < i ==> self@[j].0 != name@,
            decreases n - i,
        {
            if str_eq(self.entries[i].0.as_str(), name) {
                let ghost valuev = value@;
                self.entries[i] = (name.to_owned(), value);
                proof {
                    lemma_upsert_field_at(sv, name@, valuev, i as int);
                    assert(self@ =~= sv.update(i as int, (name@, valuev)));
                }
                return ;
            }
            i += 1;
        }
        let ghost valuev = value@;
        self.entries.push((name.to_owned(), value));
        proof {
            lemma_upsert_field_missing(sv, name@, valuev);
            assert(self@ =~= sv.push((name@, valuev)));
        }
    }
}

/// Whether every item of a list is a string.
fn all_text(items: &Vec<JsonValue>) -> (r: bool)
    ensures
        r == spec_all_text(items@.map(|_i: int, v: JsonValue| v@)),
{
    let ghost vs = items@.map(|_i: int, v: JsonValue| v@);
    let n = items.len();
    let mut i: usize = 0;
    while i < n
        invariant
            n == items.len(),
            vs == items@.map(|_i: int, v: JsonValue| v@),
            i <= n,
            forall|j: int| 0 <= j < i ==> (#[trigger] vs[j]) matches ValueView::Text(_),
        decreases n - i,
    {
        match items[i] {
            JsonValue::Text(_) => {},
            _ => {
                proof {
                    assert(!(vs[i as int] matches ValueView::Text(_)));
                }
                return false;
            },
        }
        i += 1;
    }
    true
}

/// A copy of a field value.
fn duplicate_field_value(v: &FieldValue) -> (r: FieldValue)
    ensures
        r@ == v@,
{
    match v {
        FieldValue::Missing => FieldValue::Missing,
        FieldValue::Scalar(s) => FieldValue::Scalar(s.duplicate()),
        FieldValue::List(items) => {
            let mut copy: Vec<JsonValue> = Vec::new();
            let n = items.len();
            let mut i: usize = 0;
            while i < n
                invariant
                    n == items.len(),
                    i <= n,
                    copy@.len() == i,
                    forall|j: int| 0 <= j < i ==> (#[trigger] copy@[j])@ == items@[j]@,
                decreases n - i,
            {
                copy.push(items[i].duplicate());
                i += 1;
            }
            proof {
                assert(copy@.map(|_i: int, w: JsonValue| w@) =~= items@.map(
                    |_i: int, w: JsonValue| w@,
                ));
            }
            FieldValue::List(copy)
        },
        FieldValue::Mapping(record) => {
            let mut entries: Vec<(String, JsonValue)> = Vec::new();
            let n = record.entries.len();
            let mut i: usize = 0;
            while i < n
                invariant
                    n == record.entries.len(),
                    i <= n,
                    entries@.len() == i,
                    forall|j: int|
                        0 <= j < i ==> ((#[trigger] entries@[j]).0@, entries@[j].1@) == (
                            record.entries@[j].0@,
                            record.entries@[j].1@,
                        ),
                decreases n - i,
            {
                entries.push((record.entries[i].0.clone(), record.entries[i].1.duplicate()));
                i += 1;
            }
            proof {
                assert(entries@.map(|_i: int, e: (String, JsonValue)| (e.0@, e.1@))
                    =~= record.entries@.map(|_i: int, e: (String, JsonValue)| (e.0@, e.1@)));
            }
            FieldValue::Mapping(crate::value::Record { entries })
        },
    }
}

/// Coerces a parsed scalar, by the numeric shape.
fn parse_scalar(kind: ParseKind, v: &JsonValue) -> (r: Option<JsonValue>)
    ensures
        match r {
            Some(coerced) => spec_parse_scalar(kind, v@) == Some(coerced@),
            None => spec_parse_scalar(kind, v@) is None,
        },
{
    match kind {
        ParseKind::Bool => match v {
            JsonValue::Bool(b) => Some(JsonValue::Bool(*b)),
            JsonValue::Text(s) => {
                proof {
                    reveal_strlit("true");
                    reveal_strlit("false");
                }
                if str_eq(s.as_str(), "true") {
                    Some(JsonValue::Bool(true))
                } else if str_eq(s.as_str(), "false") {
                    Some(JsonValue::Bool(false))
                } else {
                    None
                }
            },
            _ => None,
        },
        ParseKind::Other => match v {
            JsonValue::Text(s) => Some(JsonValue::Text(s.clone())),
            _ => None,
        },
        _ => {
            let number: Option<i64> = match v {
                JsonValue::Int(n) => Some(*n),
                JsonValue::Text(s) => parse_i64(s.as_str()),
                _ => None,
            };
            match number {
                Some(n) => {
                    let fits: bool = match kind {
                        ParseKind::U64 => n >= 0,
                        ParseKind::U32 => 0 <= n && n <= u32::MAX as i64,
                        ParseKind::U16 => 0 <= n && n <= u16::MAX as i64,
                        ParseKind::U8 => 0 <= n && n <= u8::MAX as i64,
                        ParseKind::I64 => true,
                        _ => i32::MIN as i64 <= n && n <= i32::MAX as i64,
                    };
                    if fits {
                        Some(JsonValue::Int(n))
                    } else {
                        None
                    }
                },
                None => None,
            }
        },
    }
}

/// Reads the incoming map into the model through the fields' setters,
/// in declaration order: a present string sets a string field, a
/// present list or mapping sets a matching field, a present scalar of
/// a numeric field parses and narrows, and every present but
/// malformed numeric value records exactly one message. An empty map
/// sets nothing and records one message under `data`.
pub fn read_map(
    fields: &Vec<FieldDeclaration>,
    data: &FieldValues,
    model: &mut FieldValues,
) -> (v: Validation)
    ensures
        data@.len() == 0 ==> final(model)@ == old(model)@ && v@ == seq![
            ("data"@, "should be nonempty"@),
        ],
        data@.len() > 0 ==> ({
            let outcome = spec_read_map(
                fields@.map(|_i: int, f: FieldDeclaration| f@),
                data@,
                old(model)@,
            );
            final(model)@ == outcome.0 && v@ == outcome.1
        }),
{
    let ghost fv = fields@.map(|_i: int, f: FieldDeclaration| f@);
    let ghost m0 = old(model)@;
    let mut validation = Validation::new();
    if data.entries.len() == 0 {
        validation.record(
            String::from_str("data"),
            String::from_str("should be nonempty"),
        );
        proof {
            assert(validation@ =~= seq![("data"@, "should be nonempty"@)]);
        }
        return validation;
    }
    proof {
        assert(fv.take(0) =~= Seq::<FieldDeclarationView>::empty());
    }
    let n = fields.len();
    let mut i: usize = 0;
    while i < n
        invariant
            n == fields.len(),
            fv == fields@.map(|_i: int, f: FieldDeclaration| f@),
            m0 == old(model)@,
            i <= n,
            model@ == spec_read_map(fv.take(i as int), data@, m0).0,
            validation@ == spec_read_map(fv.take(i as int), data@, m0).1,
        decreases n - i,
    {
        proof {
            assert(fv.take(i + 1).drop_last() =~= fv.take(i as int));
            assert(fv.take(i + 1).last() == fv[i as int]);
        }
        let field = &fields[i];
        let plan = setter_plan(field);
        let missing = FieldValue::Missing;
        let (value, present) = match data.get(field.name.as_str()) {
            Some(v) => {
                match v {
                    FieldValue::Missing => (&missing, false),
                    _ => (v, true),
                }
            },
            None => (&missing, false),
        };
        if present {
            let mut to_store: Option<FieldValue> = None;
            let mut record_error = false;
            match plan {
                SetterPlan::Disabled => {},
                SetterPlan::Password | SetterPlan::Text | SetterPlan::OptionalText => {
                    match value {
                        FieldValue::Scalar(JsonValue::Text(_)) => {
                            to_store = Some(duplicate_field_value(value));
                        },
                        _ => {},
                    }
                },
                SetterPlan::TextList => {
                    match value {
                        FieldValue::List(items) => {
                            if all_text(items) {
                                to_store = Some(duplicate_field_value(value));
                            }
                        },
                        _ => {},
                    }
                },
                SetterPlan::Mapping => {
                    match value {
                        FieldValue::Mapping(_) => {
                            to_store = Some(duplicate_field_value(value));
                        },
                        _ => {},
                    }
                },
                SetterPlan::List => {
                    match value {
                        FieldValue::List(_) => {
                            to_store = Some(duplicate_field_value(value));
                        },
                        _ => {},
                    }
                },
                SetterPlan::Parsed(kind) => {
                    match value {
                        FieldValue::Scalar(ref s) => {
                            match parse_scalar(kind, s) {
                                Some(coerced) => {
                                    to_store = Some(FieldValue::Scalar(coerced));
                                },
                                None => {
                                    record_error = true;
                                },
                            }
                        },
                        _ => {
                            record_error = true;
                        },
                    }
                },
            }
            match to_store {
                Some(coerced) => {
                    model.upsert(field.name.as_str(), coerced);
                },
                None => {
                    if record_error {
                        let raw = match value {
                            FieldValue::Scalar(JsonValue::Text(s)) => s.clone(),
                            _ => {
                                let empty = String::new();
                                proof {
                                    reveal_strlit("");
                                    assert(empty@ =~= ""@);
                                }
                                empty
                            },
                        };
                        let mut message = String::from_str("fail to parse the value: `");
                        message.append(raw.as_str());
                        message.append("`");
                        validation.record(field.name.clone(), message);
                    }
                },
            }
        }
        i += 1;
    }
    proof {
        assert(fv.take(n as int) =~= fv);
    }
    validation
}

/// The numeric shape of a declared type.
fn parse_kind(t: &str) -> (r: ParseKind)
    ensures
        r == spec_parse_kind(t@),
{
    if str_eq(t, "u64") || str_eq(t, "usize") {
        ParseKind::U64
    } else if str_eq(t, "u32") {
        ParseKind::U32
    } else if str_eq(t, "u16") {
        ParseKind::U16
    } else if str_eq(t, "u8") {
        ParseKind::U8
    } else if str_eq(t, "i32") || str_eq(t, "i16") || str_eq(t, "i8") {
        ParseKind::I32
    } else if str_eq(t, "i64") || str_eq(t, "isize") {
        ParseKind::I64
    } else if str_eq(t, "bool") {
        ParseKind::Bool
    } else {
        ParseKind::Other
    }
}

} // verus!
