//! The canonical scalar value, and the generic record: an ordered mapping
//! from field name to value, as a decoded result row carries it.

use vstd::prelude::*;
use crate::strutil::str_eq;

verus! {

/// A canonical scalar value carried between a database row and a record.
///
/// A 64-bit float travels as its IEEE 754 bit pattern, so that the
/// surrounding logic stays free of floating-point arithmetic.
#[derive(Clone, Debug, PartialEq)]
pub enum JsonValue {
    Null,
    Bool(bool),
    Int(i64),
    Float(u64),
    Text(String),
    Bytes(Vec<u8>),
}

/// The mathematical shape of a [`JsonValue`].
pub enum ValueView {
    Null,
    Bool(bool),
    Int(i64),
    Float(u64),
    Text(Seq<char>),
    Bytes(Seq<u8>),
}

impl View for JsonValue {
    type V = ValueView;

    open spec fn view(&self) -> ValueView {
        match self {
            JsonValue::Null => ValueView::Null,
            JsonValue::Bool(b) => ValueView::Bool(*b),
            JsonValue::Int(i) => ValueView::Int(*i),
            JsonValue::Float(bits) => ValueView::Float(*bits),
            JsonValue::Text(s) => ValueView::Text(s@),
            JsonValue::Bytes(b) => ValueView::Bytes(b@),
        }
    }
}

/// An ordered mapping from field name to canonical value: the shape of a
/// decoded result row, of a snapshot, and of a column's extra attributes.
#[derive(Debug)]
pub struct Record {
    pub entries: Vec<(String, JsonValue)>,
}

impl View for Record {
    type V = Seq<(Seq<char>, ValueView)>;

    open spec fn view(&self) -> Seq<(Seq<char>, ValueView)> {
        self.entries@.map(|_i: int, e: (String, JsonValue)| (e.0@, e.1@))
    }
}

/// The value of the first entry named `name`, if any.
pub open spec fn spec_lookup(s: Seq<(Seq<char>, ValueView)>, name: Seq<char>) -> Option<
    ValueView,
>
    decreases s.len(),
{
    if s.len() == 0 {
        None
    } else if s[0].0 == name {
        Some(s[0].1)
    } else {
        spec_lookup(s.drop_first(), name)
    }
}

/// Looking up in a suffix agrees with the whole when no earlier entry
/// matches.
proof fn lemma_lookup_skip(s: Seq<(Seq<char>, ValueView)>, name: Seq<char>, i: int)
    requires
        0 <= i <= s.len(),
        forall|j: int| 0 <= j < i ==> s[j].0 != name,
    ensures
        spec_lookup(s, name) == spec_lookup(s.skip(i), name),
    decreases i,
{
    if i > 0 {
        assert(s.drop_first().skip(i - 1) =~= s.skip(i));
        lemma_lookup_skip(s.drop_first(), name, i - 1);
    } else {
        assert(s.skip(0) =~= s);
    }
}

impl Record {
    /// An empty record.
    pub fn new() -> (r: Record)
        ensures
            r@ == Seq::<(Seq<char>, ValueView)>::empty(),
    {
        let r = Record { entries: Vec::new() };
        proof {
            assert(r@ =~= Seq::<(Seq<char>, ValueView)>::empty());
        }
        r
    }

    /// The number of entries.
    pub fn len(&self) -> (n: usize)
        ensures
            n == self@.len(),
    {
        self.entries.len()
    }

    /// A reference to the value of the first entry named `name`.
    pub fn get<'a>(&'a self, name: &str) -> (r: Option<&'a JsonValue>)
        ensures
            match r {
                Some(v) => spec_lookup(self@, name@) == Some(v@),
                None => spec_lookup(self@, name@) is None,
            },
    {
        let n = self.entries.len();
        let mut i: usize = 0;
        while i < n
            invariant
                n == self.entries.len(),
                i <= n,
                forall|j: int| 0 <= j < i ==> self@[j].0 != name@,
            decreases n - i,
        {
            if str_eq(self.entries[i].0.as_str(), name) {
                proof {
                    lemma_lookup_skip(self@, name@, i as int);
                    assert(self@.skip(i as int)[0] == self@[i as int]);
                }
                return Some(&self.entries[i].1);
            }
            i += 1;
        }
        proof {
            lemma_lookup_skip(self@, name@, n as int);
            assert(self@.skip(n as int) =~= Seq::<(Seq<char>, ValueView)>::empty());
        }
        None
    }

    /// Appends an entry without searching for an existing one.
    pub fn push(&mut self, name: String, value: JsonValue)
        ensures
            final(self)@ == old(self)@.push((name@, value@)),
    {
        let ghost pair = (name@, value@);
        self.entries.push((name, value));
        proof {
            assert(self@ =~= old(self)@.push(pair));
        }
    }

    /// Replaces the value of the first entry named `name`, or appends a
    /// new entry when none exists yet.
    pub fn upsert(&mut self, name: String, value: JsonValue)
        ensures
            final(self)@ == spec_upsert(old(self)@, name@, value@),
    {
        let n = self.entries.len();
        let mut i: usize = 0;
        while i < n
            invariant
                n == self.entries.len(),
                i <= n,
                self@ == old(self)@,
                forall|j: int| 0 <= j < i ==> self@[j].0 != name@,
            decreases n - i,
        {
            if str_eq(self.entries[i].0.as_str(), name.as_str()) {
                let ghost prev = self@;
                self.entries[i] = (name, value);
                proof {
                    lemma_upsert_at(prev, name@, value@, i as int);
                    assert(self@ =~= prev.update(i as int, (name@, value@)));
                }
                return ;
            }
            i += 1;
        }
        let ghost prev = self@;
        let ghost pair = (name@, value@);
        self.entries.push((name, value));
        proof {
            lemma_upsert_missing(prev, pair.0, pair.1);
            assert(self@ =~= prev.push(pair));
        }
    }
}


/// The boolean an optional value reads as.
pub open spec fn spec_opt_bool(v: Option<ValueView>) -> Option<bool> {
    match v {
        Some(ValueView::Bool(b)) => Some(b),
        _ => None,
    }
}

/// The 64-bit integer an optional value reads as.
pub open spec fn spec_opt_i64(v: Option<ValueView>) -> Option<i64> {
    match v {
        Some(ValueView::Int(n)) => Some(n),
        _ => None,
    }
}

/// The 32-bit integer an optional value narrows to, when it fits.
pub open spec fn spec_opt_i32(v: Option<ValueView>) -> Option<i32> {
    match v {
        Some(ValueView::Int(n)) => if i32::MIN <= n <= i32::MAX {
            Some(n as i32)
        } else {
            None
        },
        _ => None,
    }
}

/// The unsigned 16-bit integer an optional value narrows to.
pub open spec fn spec_opt_u16(v: Option<ValueView>) -> Option<u16> {
    match v {
        Some(ValueView::Int(n)) => if 0 <= n <= u16::MAX {
            Some(n as u16)
        } else {
            None
        },
        _ => None,
    }
}

/// The unsigned 32-bit integer an optional value narrows to.
pub open spec fn spec_opt_u32(v: Option<ValueView>) -> Option<u32> {
    match v {
        Some(ValueView::Int(n)) => if 0 <= n <= u32::MAX {
            Some(n as u32)
        } else {
            None
        },
        _ => None,
    }
}

/// The unsigned 64-bit integer an optional value reinterprets as.
pub open spec fn spec_opt_u64(v: Option<ValueView>) -> Option<u64> {
    match v {
        Some(ValueView::Int(n)) => if 0 <= n {
            Some(n as u64)
        } else {
            None
        },
        _ => None,
    }
}

/// The float bit pattern an optional value reads as.
pub open spec fn spec_opt_float_bits(v: Option<ValueView>) -> Option<u64> {
    match v {
        Some(ValueView::Float(bits)) => Some(bits),
        _ => None,
    }
}

/// The byte sequence an optional value reads as.
pub open spec fn spec_opt_bytes(v: Option<ValueView>) -> Option<Seq<u8>> {
    match v {
        Some(ValueView::Bytes(b)) => Some(b),
        _ => None,
    }
}

/// The string an optional value reads as.
pub open spec fn spec_opt_text(v: Option<ValueView>) -> Option<Seq<char>> {
    match v {
        Some(ValueView::Text(s)) => Some(s),
        _ => None,
    }
}

impl Record {
    /// The boolean stored under `name`, if the entry exists and holds one.
    pub fn get_bool(&self, name: &str) -> (r: Option<bool>)
        ensures
            r == spec_opt_bool(spec_lookup(self@, name@)),
    {
        match self.get(name) {
            Some(JsonValue::Bool(b)) => Some(*b),
            _ => None,
        }
    }

    /// The 64-bit integer stored under `name`, if the entry holds one.
    pub fn get_i64(&self, name: &str) -> (r: Option<i64>)
        ensures
            r == spec_opt_i64(spec_lookup(self@, name@)),
    {
        match self.get(name) {
            Some(JsonValue::Int(v)) => Some(*v),
            _ => None,
        }
    }

    /// The integer stored under `name`, narrowed to `i32`; absent when the
    /// entry is no integer or the value does not fit.
    pub fn get_i32(&self, name: &str) -> (r: Option<i32>)
        ensures
            r == spec_opt_i32(spec_lookup(self@, name@)),
    {
        match self.get(name) {
            Some(JsonValue::Int(v)) => {
                let v = *v;
                if i32::MIN as i64 <= v && v <= i32::MAX as i64 {
                    Some(v as i32)
                } else {
                    None
                }
            },
            _ => None,
        }
    }

    /// The integer stored under `name`, narrowed to `u16`.
    pub fn get_u16(&self, name: &str) -> (r: Option<u16>)
        ensures
            r == spec_opt_u16(spec_lookup(self@, name@)),
    {
        match self.get(name) {
            Some(JsonValue::Int(v)) => {
                let v = *v;
                if 0 <= v && v <= u16::MAX as i64 {
                    Some(v as u16)
                } else {
                    None
                }
            },
            _ => None,
        }
    }

    /// The integer stored under `name`, narrowed to `u32`.
    pub fn get_u32(&self, name: &str) -> (r: Option<u32>)
        ensures
            r == spec_opt_u32(spec_lookup(self@, name@)),
    {
        match self.get(name) {
            Some(JsonValue::Int(v)) => {
                let v = *v;
                if 0 <= v && v <= u32::MAX as i64 {
                    Some(v as u32)
                } else {
                    None
                }
            },
            _ => None,
        }
    }

    /// The integer stored under `name`, reinterpreted as `u64`; absent for
    /// negative values.
    pub fn get_u64(&self, name: &str) -> (r: Option<u64>)
        ensures
            r == spec_opt_u64(spec_lookup(self@, name@)),
    {
        match self.get(name) {
            Some(JsonValue::Int(v)) => {
                let v = *v;
                if 0 <= v {
                    Some(v as u64)
                } else {
                    None
                }
            },
            _ => None,
        }
    }

    /// The bit pattern of the 64-bit float stored under `name`.
    pub fn get_f64_bits(&self, name: &str) -> (r: Option<u64>)
        ensures
            r == spec_opt_float_bits(spec_lookup(self@, name@)),
    {
        match self.get(name) {
            Some(JsonValue::Float(bits)) => Some(*bits),
            _ => None,
        }
    }

    /// A copy of the string stored under `name`.
    pub fn get_str(&self, name: &str) -> (r: Option<String>)
        ensures
            match r {
                Some(s) => spec_opt_text(spec_lookup(self@, name@)) == Some(s@),
                None => spec_opt_text(spec_lookup(self@, name@)) is None,
            },
    {
        match self.get(name) {
            Some(JsonValue::Text(s)) => Some(s.clone()),
            _ => None,
        }
    }

    /// A copy of the byte sequence stored under `name`.
    pub fn get_bytes(&self, name: &str) -> (r: Option<Vec<u8>>)
        ensures
            match r {
                Some(b) => spec_opt_bytes(spec_lookup(self@, name@)) == Some(b@),
                None => spec_opt_bytes(spec_lookup(self@, name@)) is None,
            },
    {
        match self.get(name) {
            Some(JsonValue::Bytes(b)) => {
                let mut copy: Vec<u8> = Vec::new();
                let n = b.len();
                let mut i: usize = 0;
                while i < n
                    invariant
                        n == b@.len(),
                        i <= n,
                        copy@ == b@.subrange(0, i as int),
                    decreases n - i,
                {
                    copy.push(b[i]);
                    proof {
                        assert(copy@ =~= b@.subrange(0, i + 1 as int));
                    }
                    i += 1;
                }
                proof {
                    assert(copy@ =~= b@);
                }
                Some(copy)
            },
            _ => None,
        }
    }
}

impl JsonValue {
    /// A copy of the value.
    pub fn duplicate(&self) -> (r: JsonValue)
        ensures
            r@ == self@,
    {
        match self {
            JsonValue::Null => JsonValue::Null,
            JsonValue::Bool(b) => JsonValue::Bool(*b),
            JsonValue::Int(i) => JsonValue::Int(*i),
            JsonValue::Float(bits) => JsonValue::Float(*bits),
            JsonValue::Text(s) => JsonValue::Text(s.clone()),
            JsonValue::Bytes(b) => {
                let mut copy: Vec<u8> = Vec::new();
                let n = b.len();
                let mut i: usize = 0;
                while i < n
                    invariant
                        n == b@.len(),
                        i <= n,
                        copy@ == b@.subrange(0, i as int),
                    decreases n - i,
                {
                    copy.push(b[i]);
                    proof {
                        assert(copy@ =~= b@.subrange(0, i + 1 as int));
                    }
                    i += 1;
                }
                proof {
                    assert(copy@ =~= b@);
                }
                JsonValue::Bytes(copy)
            },
        }
    }
}

/// The record after replacing the first entry named `name` with `value`,
/// or appending `(name, value)` when no entry has that name.
pub open spec fn spec_upsert(
    s: Seq<(Seq<char>, ValueView)>,
    name: Seq<char>,
    value: ValueView,
) -> Seq<(Seq<char>, ValueView)>
    decreases s.len(),
{
    if s.len() == 0 {
        seq![(name, value)]
    } else if s[0].0 == name {
        seq![(name, value)] + s.drop_first()
    } else {
        seq![s[0]] + spec_upsert(s.drop_first(), name, value)
    }
}

proof fn lemma_upsert_at(s: Seq<(Seq<char>, ValueView)>, name: Seq<char>, value: ValueView, i: int)
    requires
        0 <= i < s.len(),
        s[i].0 == name,
        forall|j: int| 0 <= j < i ==> s[j].0 != name,
    ensures
        spec_upsert(s, name, value) =~= s.update(i, (name, value)),
    decreases i,
{
    if i == 0 {
        assert(spec_upsert(s, name, value) == seq![(name, value)] + s.drop_first());
        assert(seq![(name, value)] + s.drop_first() =~= s.update(0, (name, value)));
    } else {
        lemma_upsert_at(s.drop_first(), name, value, i - 1);
        assert(seq![s[0]] + s.drop_first().update(i - 1, (name, value)) =~= s.update(
            i,
            (name, value),
        ));
    }
}

proof fn lemma_upsert_missing(s: Seq<(Seq<char>, ValueView)>, name: Seq<char>, value: ValueView)
    requires
        forall|j: int| 0 <= j < s.len() ==> s[j].0 != name,
    ensures
        spec_upsert(s, name, value) =~= s.push((name, value)),
    decreases s.len(),
{
    if s.len() > 0 {
        lemma_upsert_missing(s.drop_first(), name, value);
        assert(seq![s[0]] + s.drop_first().push((name, value)) =~= s.push((name, value)));
    }
}

/// An upsert leaves every other name's lookup unchanged.
pub proof fn lemma_upsert_preserves_other(
    s: Seq<(Seq<char>, ValueView)>,
    name: Seq<char>,
    value: ValueView,
    other: Seq<char>,
)
    requires
        other != name,
    ensures
        spec_lookup(spec_upsert(s, name, value), other) == spec_lookup(s, other),
    decreases s.len(),
{
    let result = spec_upsert(s, name, value);
    if s.len() == 0 {
        assert(result[0] == (name, value));
        assert(result.drop_first() =~= Seq::<(Seq<char>, ValueView)>::empty());
        assert(spec_lookup(result, other) == spec_lookup(result.drop_first(), other));
    } else if s[0].0 == name {
        assert(result[0] == (name, value));
        assert(result.drop_first() =~= s.drop_first());
        assert(spec_lookup(result, other) == spec_lookup(s.drop_first(), other));
        assert(spec_lookup(s, other) == spec_lookup(s.drop_first(), other));
    } else {
        lemma_upsert_preserves_other(s.drop_first(), name, value, other);
        assert(result[0] == s[0]);
        assert(result.drop_first() =~= spec_upsert(s.drop_first(), name, value));
        if s[0].0 == other {
            assert(spec_lookup(result, other) == Some(s[0].1));
        } else {
            assert(spec_lookup(result, other) == spec_lookup(result.drop_first(), other));
        }
    }
}

/// After an upsert the looked-up value is the one stored.
pub proof fn lemma_upsert_lookup(
    s: Seq<(Seq<char>, ValueView)>,
    name: Seq<char>,
    value: ValueView,
)
    ensures
        spec_lookup(spec_upsert(s, name, value), name) == Some(value),
    decreases s.len(),
{
    if s.len() == 0 {
    } else if s[0].0 == name {
        assert(spec_upsert(s, name, value)[0] == (name, value));
    } else {
        lemma_upsert_lookup(s.drop_first(), name, value);
        assert(spec_upsert(s, name, value)[0] == s[0]);
        assert(spec_upsert(s, name, value).drop_first() =~= spec_upsert(
            s.drop_first(),
            name,
            value,
        ));
    }
}

} // verus!
