//! The Row Decoder: dynamic dispatch on a result row's reported column
//! type name into a small closed set of canonical value kinds, and the
//! range-checked narrowing into unsigned destination fields.

use vstd::prelude::*;
use crate::meta::{FieldDeclaration, FieldDeclarationView};
use crate::strutil::str_eq;
use crate::value::{JsonValue, Record, ValueView};

verus! {

/// The canonical kind a reported column type decodes as.
#[derive(Clone, Copy, Debug, PartialEq, Eq, Structural)]
pub enum ValueKind {
    Bool,
    Float,
    Int,
    Text,
}

/// Whether the reported type name decodes as a boolean.
pub open spec fn spec_is_bool_type(t: Seq<char>) -> bool {
    t == "BOOL"@ || t == "BOOLEAN"@
}

/// Whether the reported type name decodes as a 64-bit float.
pub open spec fn spec_is_float_type(t: Seq<char>) -> bool {
    ||| t == "DOUBLE"@
    ||| t == "DOUBLE PRECISION"@
    ||| t == "FLOAT"@
    ||| t == "FLOAT4"@
    ||| t == "FLOAT8"@
    ||| t == "NUMERIC"@
    ||| t == "REAL"@
}

/// Whether the reported type name decodes as a 64-bit signed integer.
pub open spec fn spec_is_int_type(t: Seq<char>) -> bool {
    ||| t == "BIGINT"@
    ||| t == "BIGINT UNSIGNED"@
    ||| t == "BIGSERIAL"@
    ||| t == "INT"@
    ||| t == "INT2"@
    ||| t == "INT4"@
    ||| t == "INT8"@
    ||| t == "INTEGER"@
    ||| t == "INT UNSIGNED"@
    ||| t == "SERIAL"@
    ||| t == "SMALLINT"@
    ||| t == "SMALLINT UNSIGNED"@
    ||| t == "SMALLSERIAL"@
    ||| t == "TINYINT"@
    ||| t == "TINYINT UNSIGNED"@
}

/// The canonical kind of a reported column type name: booleans and the
/// float and integer families by exact, case-sensitive match; everything
/// else travels as text.
pub open spec fn spec_column_kind(t: Seq<char>) -> ValueKind {
    if spec_is_bool_type(t) {
        ValueKind::Bool
    } else if spec_is_float_type(t) {
        ValueKind::Float
    } else if spec_is_int_type(t) {
        ValueKind::Int
    } else {
        ValueKind::Text
    }
}

/// The canonical kind of a reported column type name.
pub fn column_kind(t: &str) -> (r: ValueKind)
    ensures
        r == spec_column_kind(t@),
{
    if str_eq(t, "BOOL") || str_eq(t, "BOOLEAN") {
        ValueKind::Bool
    } else if str_eq(t, "DOUBLE") || str_eq(t, "DOUBLE PRECISION") || str_eq(t, "FLOAT")
        || str_eq(t, "FLOAT4") || str_eq(t, "FLOAT8") || str_eq(t, "NUMERIC") || str_eq(
        t,
        "REAL",
    ) {
        ValueKind::Float
    } else if str_eq(t, "BIGINT") || str_eq(t, "BIGINT UNSIGNED") || str_eq(t, "BIGSERIAL")
        || str_eq(t, "INT") || str_eq(t, "INT2") || str_eq(t, "INT4") || str_eq(t, "INT8")
        || str_eq(t, "INTEGER") || str_eq(t, "INT UNSIGNED") || str_eq(t, "SERIAL") || str_eq(
        t,
        "SMALLINT",
    ) || str_eq(t, "SMALLINT UNSIGNED") || str_eq(t, "SMALLSERIAL") || str_eq(t, "TINYINT")
        || str_eq(t, "TINYINT UNSIGNED") {
        ValueKind::Int
    } else {
        ValueKind::Text
    }
}

/// One column of an opaque result row: its name, the type name the
/// database reports for it, and the raw value the driver hands over.
pub struct RowColumn {
    pub name: String,
    pub declared_type: String,
    pub raw: JsonValue,
}

/// The mathematical shape of a [`RowColumn`].
pub struct RowColumnView {
    pub name: Seq<char>,
    pub declared_type: Seq<char>,
    pub raw: ValueView,
}

impl View for RowColumn {
    type V = RowColumnView;

    open spec fn view(&self) -> RowColumnView {
        RowColumnView { name: self.name@, declared_type: self.declared_type@, raw: self.raw@ }
    }
}

/// An opaque result row: an ordered list of named, typed raw values.
pub struct DatabaseRow {
    pub columns: Vec<RowColumn>,
}

impl View for DatabaseRow {
    type V = Seq<RowColumnView>;

    open spec fn view(&self) -> Seq<RowColumnView> {
        self.columns@.map(|_i: int, c: RowColumn| c@)
    }
}

/// What one column decodes to. A SQL null decodes to the canonical null
/// whatever the reported type; otherwise the raw value must carry the
/// kind the reported type dispatches to.
pub open spec fn spec_decode_column(c: RowColumnView) -> Option<ValueView> {
    if c.raw == ValueView::Null {
        Some(ValueView::Null)
    } else {
        match spec_column_kind(c.declared_type) {
            ValueKind::Bool => match c.raw {
                ValueView::Bool(b) => Some(ValueView::Bool(b)),
                _ => None,
            },
            ValueKind::Float => match c.raw {
                ValueView::Float(bits) => Some(ValueView::Float(bits)),
                _ => None,
            },
            ValueKind::Int => match c.raw {
                ValueView::Int(v) => Some(ValueView::Int(v)),
                _ => None,
            },
            ValueKind::Text => match c.raw {
                ValueView::Text(s) => Some(ValueView::Text(s)),
                _ => None,
            },
        }
    }
}

/// The error a failed row decode surfaces: the offending column's name
/// and what went wrong there.
#[derive(Debug)]
pub struct DecodeError {
    pub column: String,
    pub kind: DecodeErrorKind,
}

/// What went wrong decoding a column.
#[derive(Clone, Copy, Debug, PartialEq, Eq, Structural)]
pub enum DecodeErrorKind {
    /// The raw value does not carry the kind its reported type
    /// dispatches to.
    TypeMismatch,
    /// The value does not fit the unsigned destination field.
    OutOfRange,
    /// The row has no column of the requested name.
    MissingColumn,
}

/// Decodes every column of a result row into the generic record, by the
/// dispatch on reported type names. Fails on the first column whose raw
/// value cannot be coerced, naming that column.
pub fn decode_row(row: &DatabaseRow) -> (r: Result<Record, DecodeError>)
    ensures
        match r {
            Ok(rec) => {
                &&& forall|i: int|
                    0 <= i < row@.len() ==> spec_decode_column(#[trigger] row@[i]) is Some
                &&& rec@.len() == row@.len()
                &&& forall|i: int|
                    0 <= i < row@.len() ==> #[trigger] rec@[i] == (
                        row@[i].name,
                        spec_decode_column(row@[i]).unwrap(),
                    )
            },
            Err(e) => {
                &&& exists|i: int|
                    0 <= i < row@.len() && spec_decode_column(#[trigger] row@[i]) is None
                        && e.column@ == row@[i].name
                &&& e.kind == DecodeErrorKind::TypeMismatch
            },
        },
{
    let mut record = Record::new();
    let n = row.columns.len();
    let mut i: usize = 0;
    while i < n
        invariant
            n == row@.len(),
            i <= n,
            record@.len() == i,
            forall|j: int| 0 <= j < i ==> spec_decode_column(#[trigger] row@[j]) is Some,
            forall|j: int|
                0 <= j < i ==> #[trigger] record@[j] == (
                    row@[j].name,
                    spec_decode_column(row@[j]).unwrap(),
                ),
        decreases n - i,
    {
        let column = &row.columns[i];
        let name = column.name.clone();
        match column.raw {
            JsonValue::Null => {
                record.push(name, JsonValue::Null);
            },
            _ => {
                let decoded: Option<JsonValue> = match column_kind(
                    column.declared_type.as_str(),
                ) {
                    ValueKind::Bool => match column.raw {
                        JsonValue::Bool(b) => Some(JsonValue::Bool(b)),
                        _ => None,
                    },
                    ValueKind::Float => match column.raw {
                        JsonValue::Float(bits) => Some(JsonValue::Float(bits)),
                        _ => None,
                    },
                    ValueKind::Int => match column.raw {
                        JsonValue::Int(v) => Some(JsonValue::Int(v)),
                        _ => None,
                    },
                    ValueKind::Text => match column.raw {
                        JsonValue::Text(ref s) => Some(JsonValue::Text(s.clone())),
                        _ => None,
                    },
                };
                match decoded {
                    Some(value) => {
                        record.push(name, value);
                    },
                    None => {
                        proof {
                            assert(spec_decode_column(row@[i as int]) is None);
                        }
                        return Err(
                            DecodeError { column: name, kind: DecodeErrorKind::TypeMismatch },
                        );
                    },
                }
            },
        }
        i += 1;
    }
    Ok(record)
}

/// Narrows a decoded 64-bit signed integer into `u64`, failing when the
/// value is negative.
pub fn narrow_i64_to_u64(v: i64) -> (r: Result<u64, ()>)
    ensures
        v >= 0 ==> r == Ok::<u64, ()>(v as u64),
        v < 0 ==> r == Err::<u64, ()>(()),
{
    if v >= 0 {
        Ok(v as u64)
    } else {
        Err(())
    }
}

/// Narrows a decoded 64-bit signed integer into `u32`, failing when the
/// value is negative or too large.
pub fn narrow_i64_to_u32(v: i64) -> (r: Result<u32, ()>)
    ensures
        0 <= v <= u32::MAX ==> r == Ok::<u32, ()>(v as u32),
        !(0 <= v <= u32::MAX) ==> r == Err::<u32, ()>(()),
{
    if 0 <= v && v <= u32::MAX as i64 {
        Ok(v as u32)
    } else {
        Err(())
    }
}

/// Narrows a decoded 64-bit signed integer into `u16`.
pub fn narrow_i64_to_u16(v: i64) -> (r: Result<u16, ()>)
    ensures
        0 <= v <= u16::MAX ==> r == Ok::<u16, ()>(v as u16),
        !(0 <= v <= u16::MAX) ==> r == Err::<u16, ()>(()),
{
    if 0 <= v && v <= u16::MAX as i64 {
        Ok(v as u16)
    } else {
        Err(())
    }
}

/// Narrows a decoded 64-bit signed integer into `u8`.
pub fn narrow_i64_to_u8(v: i64) -> (r: Result<u8, ()>)
    ensures
        0 <= v <= u8::MAX ==> r == Ok::<u8, ()>(v as u8),
        !(0 <= v <= u8::MAX) ==> r == Err::<u8, ()>(()),
{
    if 0 <= v && v <= u8::MAX as i64 {
        Ok(v as u8)
    } else {
        Err(())
    }
}

/// The first column of the given name, if any.
pub open spec fn spec_find_column(row: Seq<RowColumnView>, name: Seq<char>) -> Option<
    RowColumnView,
>
    decreases row.len(),
{
    if row.len() == 0 {
        None
    } else if row[0].name == name {
        Some(row[0])
    } else {
        spec_find_column(row.drop_first(), name)
    }
}

/// A found column stands somewhere in the row.
pub proof fn lemma_find_column_exists(row: Seq<RowColumnView>, name: Seq<char>)
    requires
        spec_find_column(row, name) is Some,
    ensures
        spec_find_column(row, name).unwrap().name == name,
        exists|i: int|
            0 <= i < row.len() && #[trigger] row[i] == spec_find_column(row, name).unwrap(),
    decreases row.len(),
{
    if row.len() > 0 && row[0].name != name {
        lemma_find_column_exists(row.drop_first(), name);
        let i = choose|i: int|
            0 <= i < row.drop_first().len() && #[trigger] row.drop_first()[i]
                == spec_find_column(row.drop_first(), name).unwrap();
        assert(row[i + 1] == row.drop_first()[i]);
    }
}

impl DatabaseRow {
    /// The first column of the given name, if any.
    pub fn find_column<'a>(&'a self, name: &str) -> (r: Option<&'a RowColumn>)
        ensures
            match r {
                Some(c) => spec_find_column(self@, name@) == Some(c@),
                None => spec_find_column(self@, name@) is None,
            },
    {
        proof {
            assert(self@.skip(0) =~= self@);
        }
        let n = self.columns.len();
        let mut i: usize = 0;
        while i < n
            invariant
                n == self@.len(),
                i <= n,
                spec_find_column(self@, name@) == spec_find_column(self@.skip(i as int), name@),
            decreases n - i,
        {
            proof {
                assert(self@.skip(i as int)[0] == self@[i as int]);
                assert(self@.skip(i as int).drop_first() =~= self@.skip(i + 1));
            }
            if str_eq(self.columns[i].name.as_str(), name) {
                proof {
                    assert(self@[i as int] == self.columns@[i as int]@);
                }
                return Some(&self.columns[i]);
            }
            i += 1;
        }
        proof {
            assert(self@.skip(n as int) =~= Seq::<RowColumnView>::empty());
        }
        None
    }

    /// Decodes the named column as a 64-bit signed integer: the value an
    /// unsigned destination field starts from. Succeeds exactly when the
    /// first column of that name holds an integer; a differently-shaped
    /// value is a type mismatch, an absent column a missing-column
    /// error, each naming the column.
    pub fn decode_i64(&self, name: &str) -> (r: Result<i64, DecodeError>)
        ensures
            match spec_find_column(self@, name@) {
                Some(c) => match c.raw {
                    ValueView::Int(v) => r == Ok::<i64, DecodeError>(v),
                    _ => r matches Err(e) && e.column@ == name@ && e.kind
                        == DecodeErrorKind::TypeMismatch,
                },
                None => r matches Err(e) && e.column@ == name@ && e.kind
                    == DecodeErrorKind::MissingColumn,
            },
    {
        match self.find_column(name) {
            Some(column) => match column.raw {
                JsonValue::Int(v) => Ok(v),
                _ => {
                    proof {
                        lemma_find_column_exists(self@, name@);
                    }
                    Err(
                        DecodeError {
                            column: column.name.clone(),
                            kind: DecodeErrorKind::TypeMismatch,
                        },
                    )
                },
            },
            None => Err(
                DecodeError {
                    column: name.to_owned(),
                    kind: DecodeErrorKind::MissingColumn,
                },
            ),
        }
    }

    /// Decodes the named column into an unsigned 32-bit destination
    /// field: decodes as a 64-bit signed integer, then range-checks the
    /// narrowing, failing with a range error when it is lossy.
    pub fn decode_u32(&self, name: &str) -> (r: Result<u32, DecodeError>)
        ensures
            match spec_find_column(self@, name@) {
                Some(c) => match c.raw {
                    ValueView::Int(v) => if 0 <= v <= u32::MAX {
                        r == Ok::<u32, DecodeError>(v as u32)
                    } else {
                        r matches Err(e) && e.column@ == name@ && e.kind
                            == DecodeErrorKind::OutOfRange
                    },
                    _ => r matches Err(e) && e.column@ == name@ && e.kind
                        == DecodeErrorKind::TypeMismatch,
                },
                None => r matches Err(e) && e.column@ == name@ && e.kind
                    == DecodeErrorKind::MissingColumn,
            },
    {
        let v = self.decode_i64(name)?;
        match narrow_i64_to_u32(v) {
            Ok(narrowed) => Ok(narrowed),
            Err(_) => Err(
                DecodeError { column: name.to_owned(), kind: DecodeErrorKind::OutOfRange },
            ),
        }
    }

    /// Decodes the named column into an unsigned 64-bit destination
    /// field, failing with a range error for a negative value.
    pub fn decode_u64(&self, name: &str) -> (r: Result<u64, DecodeError>)
        ensures
            match spec_find_column(self@, name@) {
                Some(c) => match c.raw {
                    ValueView::Int(v) => if v >= 0 {
                        r == Ok::<u64, DecodeError>(v as u64)
                    } else {
                        r matches Err(e) && e.column@ == name@ && e.kind
                            == DecodeErrorKind::OutOfRange
                    },
                    _ => r matches Err(e) && e.column@ == name@ && e.kind
                        == DecodeErrorKind::TypeMismatch,
                },
                None => r matches Err(e) && e.column@ == name@ && e.kind
                    == DecodeErrorKind::MissingColumn,
            },
    {
        let v = self.decode_i64(name)?;
        match narrow_i64_to_u64(v) {
            Ok(narrowed) => Ok(narrowed),
            Err(_) => Err(
                DecodeError { column: name.to_owned(), kind: DecodeErrorKind::OutOfRange },
            ),
        }
    }

    /// Decodes the named column into an unsigned 16-bit destination
    /// field, failing with a range error when the narrowing is lossy.
    pub fn decode_u16(&self, name: &str) -> (r: Result<u16, DecodeError>)
        ensures
            match spec_find_column(self@, name@) {
                Some(c) => match c.raw {
                    ValueView::Int(v) => if 0 <= v <= u16::MAX {
                        r == Ok::<u16, DecodeError>(v as u16)
                    } else {
                        r matches Err(e) && e.column@ == name@ && e.kind
                            == DecodeErrorKind::OutOfRange
                    },
                    _ => r matches Err(e) && e.column@ == name@ && e.kind
                        == DecodeErrorKind::TypeMismatch,
                },
                None => r matches Err(e) && e.column@ == name@ && e.kind
                    == DecodeErrorKind::MissingColumn,
            },
    {
        let v = self.decode_i64(name)?;
        match narrow_i64_to_u16(v) {
            Ok(narrowed) => Ok(narrowed),
            Err(_) => Err(
                DecodeError { column: name.to_owned(), kind: DecodeErrorKind::OutOfRange },
            ),
        }
    }
}

/// The unsigned shape a destination field narrows into.
#[derive(Clone, Copy, Debug, PartialEq, Eq, Structural)]
pub enum UnsignedKind {
    U64,
    U32,
    U16,
    U8,
}

/// How one declared field of a record type decodes out of a result
/// row.
#[derive(Clone, Copy, Debug, PartialEq, Eq, Structural)]
pub enum DecodePlan {
    /// An `ignore` or `write_only` field is never decoded.
    Skip,
    /// An unsigned destination decodes as a signed 64-bit integer and
    /// range-checks the narrowing.
    Unsigned(UnsignedKind),
    /// Everything else decodes by the reported type name's dispatch.
    Direct,
}

/// Whether the field carries an `ignore` or `write_only` attribute.
pub open spec fn spec_decode_skipped(f: FieldDeclarationView) -> bool {
    exists|i: int|
        0 <= i < f.attrs.len() && ((#[trigger] f.attrs[i]).key == "ignore"@ || f.attrs[i].key
            == "write_only"@)
}

/// The decode plan of one declared field.
pub open spec fn spec_decode_plan(f: FieldDeclarationView) -> DecodePlan {
    if spec_decode_skipped(f) {
        DecodePlan::Skip
    } else if f.field_type == "u64"@ || f.field_type == "usize"@ {
        DecodePlan::Unsigned(UnsignedKind::U64)
    } else if f.field_type == "u32"@ {
        DecodePlan::Unsigned(UnsignedKind::U32)
    } else if f.field_type == "u16"@ {
        DecodePlan::Unsigned(UnsignedKind::U16)
    } else if f.field_type == "u8"@ {
        DecodePlan::Unsigned(UnsignedKind::U8)
    } else {
        DecodePlan::Direct
    }
}

/// The range an unsigned shape admits.
pub open spec fn spec_unsigned_fits(kind: UnsignedKind, v: i64) -> bool {
    match kind {
        UnsignedKind::U64 => v >= 0,
        UnsignedKind::U32 => 0 <= v <= u32::MAX,
        UnsignedKind::U16 => 0 <= v <= u16::MAX,
        UnsignedKind::U8 => 0 <= v <= u8::MAX,
    }
}

/// What one declared field decodes to out of a row: nothing for a
/// skipped field, otherwise an entry or the first error.
pub open spec fn spec_decode_field(f: FieldDeclarationView, row: Seq<RowColumnView>) -> Result<
    Option<(Seq<char>, ValueView)>,
    (Seq<char>, DecodeErrorKind),
> {
    match spec_decode_plan(f) {
        DecodePlan::Skip => Ok(None),
        DecodePlan::Unsigned(kind) => match spec_find_column(row, f.name) {
            None => Err((f.name, DecodeErrorKind::MissingColumn)),
            Some(c) => match c.raw {
                ValueView::Int(v) => if spec_unsigned_fits(kind, v) {
                    Ok(Some((f.name, ValueView::Int(v))))
                } else {
                    Err((f.name, DecodeErrorKind::OutOfRange))
                },
                _ => Err((f.name, DecodeErrorKind::TypeMismatch)),
            },
        },
        DecodePlan::Direct => match spec_find_column(row, f.name) {
            None => Err((f.name, DecodeErrorKind::MissingColumn)),
            Some(c) => match spec_decode_column(c) {
                Some(v) => Ok(Some((f.name, v))),
                None => Err((f.name, DecodeErrorKind::TypeMismatch)),
            },
        },
    }
}

/// What a whole declared record decodes to: the non-skipped fields'
/// entries in declaration order, or the first field's error.
pub open spec fn spec_decode_model(
    fields: Seq<FieldDeclarationView>,
    row: Seq<RowColumnView>,
) -> Result<Seq<(Seq<char>, ValueView)>, (Seq<char>, DecodeErrorKind)>
    decreases fields.len(),
{
    if fields.len() == 0 {
        Ok(Seq::<(Seq<char>, ValueView)>::empty())
    } else {
        match spec_decode_field(fields[0], row) {
            Err(e) => Err(e),
            Ok(head) => match spec_decode_model(fields.drop_first(), row) {
                Err(e) => Err(e),
                Ok(tail) => Ok(
                    (match head {
                        Some(entry) => seq![entry],
                        None => Seq::<(Seq<char>, ValueView)>::empty(),
                    }) + tail,
                ),
            },
        }
    }
}

/// The decode plan of one declared field.
pub fn decode_plan(f: &FieldDeclaration) -> (r: DecodePlan)
    ensures
        r == spec_decode_plan(f@),
{
    let mut skipped = false;
    let n = f.attrs.len();
    let mut i: usize = 0;
    while i < n
        invariant
            n == f.attrs.len(),
            i <= n,
            skipped == exists|j: int|
                0 <= j < i && ((#[trigger] f@.attrs[j]).key == "ignore"@ || f@.attrs[j].key
                    == "write_only"@),
        decreases n - i,
    {
        let key = f.attrs[i].key.as_str();
        if str_eq(key, "ignore") || str_eq(key, "write_only") {
            proof {
                assert((f@.attrs[i as int].key == "ignore"@ || f@.attrs[i as int].key
                    == "write_only"@));
            }
            skipped = true;
        }
        i += 1;
    }
    if skipped {
        return DecodePlan::Skip;
    }
    let t = f.field_type.as_str();
    if str_eq(t, "u64") || str_eq(t, "usize") {
        DecodePlan::Unsigned(UnsignedKind::U64)
    } else if str_eq(t, "u32") {
        DecodePlan::Unsigned(UnsignedKind::U32)
    } else if str_eq(t, "u16") {
        DecodePlan::Unsigned(UnsignedKind::U16)
    } else if str_eq(t, "u8") {
        DecodePlan::Unsigned(UnsignedKind::U8)
    } else {
        DecodePlan::Direct
    }
}

/// Decodes a result row into a declared record type: one entry per
/// non-skipped field, in declaration order; an unsigned field decodes
/// as a signed 64-bit integer and range-checks the narrowing, failing
/// with a range error when it is lossy; the first failing field aborts
/// the decode, naming its column.
pub fn decode_model(fields: &Vec<FieldDeclaration>, row: &DatabaseRow) -> (r: Result<
    Record,
    DecodeError,
>)
    ensures
        ({
            let fv = fields@.map(|_i: int, f: FieldDeclaration| f@);
            match r {
                Ok(rec) => spec_decode_model(fv, row@) == Ok::<
                    Seq<(Seq<char>, ValueView)>,
                    (Seq<char>, DecodeErrorKind),
                >(rec@),
                Err(e) => spec_decode_model(fv, row@) == Err::<
                    Seq<(Seq<char>, ValueView)>,
                    (Seq<char>, DecodeErrorKind),
                >((e.column@, e.kind)),
            }
        }),
{
    let ghost fv = fields@.map(|_i: int, f: FieldDeclaration| f@);
    let mut record = Record::new();
    proof {
        assert(fv.skip(0) =~= fv);
        match spec_decode_model(fv, row@) {
            Ok(rest) => {
                assert(record@ + rest =~= rest);
            },
            Err(_) => {},
        }
    }
    let n = fields.len();
    let mut i: usize = 0;
    while i < n
        invariant
            n == fields.len(),
            fv == fields@.map(|_i: int, f: FieldDeclaration| f@),
            spec_decode_model(fv, row@) == (match spec_decode_model(fv.skip(i as int), row@) {
                Ok(rest) => Ok::<Seq<(Seq<char>, ValueView)>, (Seq<char>, DecodeErrorKind)>(
                    record@ + rest,
                ),
                Err(e) => Err::<Seq<(Seq<char>, ValueView)>, (Seq<char>, DecodeErrorKind)>(e),
            }),
            i <= n,
        decreases n - i,
    {
        proof {
            assert(fv.skip(i as int)[0] == fv[i as int]);
            assert(fv.skip(i as int).drop_first() =~= fv.skip(i + 1));
        }
        let field = &fields[i];
        let ghost before = record@;
        match decode_plan(field) {
            DecodePlan::Skip => {
                proof {
                    assert(before + Seq::<(Seq<char>, ValueView)>::empty() =~= before);
                }
            },
            DecodePlan::Unsigned(kind) => {
                match row.find_column(field.name.as_str()) {
                    None => {
                        return Err(
                            DecodeError {
                                column: field.name.clone(),
                                kind: DecodeErrorKind::MissingColumn,
                            },
                        );
                    },
                    Some(column) => {
                        match column.raw {
                            JsonValue::Int(v) => {
                                let fits = match kind {
                                    UnsignedKind::U64 => v >= 0,
                                    UnsignedKind::U32 => 0 <= v && v <= u32::MAX as i64,
                                    UnsignedKind::U16 => 0 <= v && v <= u16::MAX as i64,
                                    UnsignedKind::U8 => 0 <= v && v <= u8::MAX as i64,
                                };
                                if fits {
                                    record.push(field.name.clone(), JsonValue::Int(v));
                                    proof {
                                        assert(record@ =~= before + seq![
                                            (fv[i as int].name, ValueView::Int(v)),
                                        ]);
                                    }
                                } else {
                                    return Err(
                                        DecodeError {
                                            column: field.name.clone(),
                                            kind: DecodeErrorKind::OutOfRange,
                                        },
                                    );
                                }
                            },
                            _ => {
                                return Err(
                                    DecodeError {
                                        column: field.name.clone(),
                                        kind: DecodeErrorKind::TypeMismatch,
                                    },
                                );
                            },
                        }
                    },
                }
            },
            DecodePlan::Direct => {
                match row.find_column(field.name.as_str()) {
                    None => {
                        return Err(
                            DecodeError {
                                column: field.name.clone(),
                                kind: DecodeErrorKind::MissingColumn,
                            },
                        );
                    },
                    Some(column) => {
                        let decoded: Option<JsonValue> = match column.raw {
                            JsonValue::Null => Some(JsonValue::Null),
                            _ => match column_kind(column.declared_type.as_str()) {
                                ValueKind::Bool => match column.raw {
                                    JsonValue::Bool(b) => Some(JsonValue::Bool(b)),
                                    _ => None,
                                },
                                ValueKind::Float => match column.raw {
                                    JsonValue::Float(bits) => Some(JsonValue::Float(bits)),
                                    _ => None,
                                },
                                ValueKind::Int => match column.raw {
                                    JsonValue::Int(v) => Some(JsonValue::Int(v)),
                                    _ => None,
                                },
                                ValueKind::Text => match column.raw {
                                    JsonValue::Text(ref s) => Some(
                                        JsonValue::Text(s.clone()),
                                    ),
                                    _ => None,
                                },
                            },
                        };
                        match decoded {
                            Some(value) => {
                                let ghost valuev = value@;
                                record.push(field.name.clone(), value);
                                proof {
                                    assert(record@ =~= before + seq![
                                        (fv[i as int].name, valuev),
                                    ]);
                                }
                            },
                            None => {
                                return Err(
                                    DecodeError {
                                        column: field.name.clone(),
                                        kind: DecodeErrorKind::TypeMismatch,
                                    },
                                );
                            },
                        }
                    },
                }
            },
        }
        proof {
            let whole = spec_decode_model(fv, row@);
            let tail = spec_decode_model(fv.skip(i + 1), row@);
            match tail {
                Ok(rest) => {
                    assert(before + (match spec_decode_field(fv[i as int], row@) {
                        Ok(Some(entry)) => seq![entry] + rest,
                        _ => rest,
                    }) =~= record@ + rest);
                },
                Err(_) => {},
            }
        }
        i += 1;
    }
    proof {
        assert(fv.skip(n as int) =~= Seq::<FieldDeclarationView>::empty());
        assert(record@ + Seq::<(Seq<char>, ValueView)>::empty() =~= record@);
    }
    Ok(record)
}

} // verus!
