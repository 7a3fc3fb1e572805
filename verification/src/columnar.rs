//! Columnar collection: deriving a column descriptor from one record
//! entry, and collecting one field's values across a batch of generic
//! records into a typed column, ready for columnar-array construction
//! at the serialization boundary.

use vstd::prelude::*;
use crate::value::{JsonValue, Record, ValueView, spec_lookup, spec_opt_bool, spec_opt_bytes,
    spec_opt_float_bits, spec_opt_i32, spec_opt_i64, spec_opt_text, spec_opt_u16, spec_opt_u32,
    spec_opt_u64};

verus! {

/// The columnar element type of one collected field.
#[derive(Clone, Copy, Debug, PartialEq, Eq, Structural)]
pub enum DataType {
    Boolean,
    Int32,
    Int64,
    UInt16,
    UInt32,
    UInt64,
    Float64,
    Binary,
    LargeBinary,
    Utf8,
    LargeUtf8,
    Unsupported,
}

/// A column descriptor derived from a record entry: its field name,
/// its element type, and nullability — always nullable here, since any
/// record of the batch may lack the field.
#[derive(Debug)]
pub struct FieldDescriptor {
    pub name: String,
    pub data_type: DataType,
    pub nullable: bool,
}

/// The element type a canonical value maps to; nothing for a value —
/// a null among them — that no columnar element type carries.
pub open spec fn spec_entry_data_type(v: ValueView) -> Option<DataType> {
    match v {
        ValueView::Bool(_) => Some(DataType::Boolean),
        ValueView::Int(_) => Some(DataType::Int64),
        ValueView::Float(_) => Some(DataType::Float64),
        ValueView::Bytes(_) => Some(DataType::Binary),
        ValueView::Text(_) => Some(DataType::Utf8),
        ValueView::Null => None,
    }
}

/// Attempts to derive a column descriptor from one record entry. A
/// value outside the columnar element types fails, naming the field in
/// the message.
pub fn try_from_avro_record_entry(field: &str, value: &JsonValue) -> (r: Result<
    FieldDescriptor,
    String,
>)
    ensures
        match r {
            Ok(d) => {
                &&& spec_entry_data_type(value@) == Some(d.data_type)
                &&& d.name@ == field@
                &&& d.nullable
            },
            Err(message) => {
                &&& spec_entry_data_type(value@) is None
                &&& message@ == "fail to construct an Arrow field for the `"@ + field@
                    + "` field"@
            },
        },
{
    let data_type = match value {
        JsonValue::Bool(_) => Some(DataType::Boolean),
        JsonValue::Int(_) => Some(DataType::Int64),
        JsonValue::Float(_) => Some(DataType::Float64),
        JsonValue::Bytes(_) => Some(DataType::Binary),
        JsonValue::Text(_) => Some(DataType::Utf8),
        JsonValue::Null => None,
    };
    match data_type {
        Some(data_type) => Ok(
            FieldDescriptor { name: field.to_owned(), data_type, nullable: true },
        ),
        None => {
            let mut message = String::from_str("fail to construct an Arrow field for the `");
            message.append(field);
            message.append("` field");
            Err(message)
        },
    }
}

/// One field's values collected across a batch of records, as a typed
/// column of optional elements.
pub enum ColumnValues {
    Booleans(Vec<Option<bool>>),
    Int32s(Vec<Option<i32>>),
    Int64s(Vec<Option<i64>>),
    UInt16s(Vec<Option<u16>>),
    UInt32s(Vec<Option<u32>>),
    UInt64s(Vec<Option<u64>>),
    /// 64-bit float elements, each as its IEEE 754 bit pattern.
    Float64Bits(Vec<Option<u64>>),
    Binaries(Vec<Option<Vec<u8>>>),
    Utf8s(Vec<Option<String>>),
    /// A column of the given length with every element null.
    Nulls(usize),
}

/// Collects one field's values across the records, by the descriptor's
/// element type: one optional element per record, in record order; an
/// absent or differently-shaped value collects as null, and an element
/// type outside the canonical set yields an all-null column.
pub fn collect_values_from_avro_records(
    descriptor: &FieldDescriptor,
    records: &Vec<Record>,
) -> (r: ColumnValues)
    ensures
        ({
            let rs = records@.map(|_i: int, rec: Record| rec@);
            let name = descriptor.name@;
            match r {
                ColumnValues::Booleans(v) => descriptor.data_type == DataType::Boolean
                    && v@.len() == rs.len() && (forall|i: int|
                    0 <= i < rs.len() ==> v@[i] == spec_opt_bool(
                        spec_lookup(#[trigger] rs[i], name),
                    )),
                ColumnValues::Int32s(v) => descriptor.data_type == DataType::Int32 && v@.len()
                    == rs.len() && (forall|i: int|
                    0 <= i < rs.len() ==> v@[i] == spec_opt_i32(
                        spec_lookup(#[trigger] rs[i], name),
                    )),
                ColumnValues::Int64s(v) => descriptor.data_type == DataType::Int64 && v@.len()
                    == rs.len() && (forall|i: int|
                    0 <= i < rs.len() ==> v@[i] == spec_opt_i64(
                        spec_lookup(#[trigger] rs[i], name),
                    )),
                ColumnValues::UInt16s(v) => descriptor.data_type == DataType::UInt16 && v@.len()
                    == rs.len() && (forall|i: int|
                    0 <= i < rs.len() ==> v@[i] == spec_opt_u16(
                        spec_lookup(#[trigger] rs[i], name),
                    )),
                ColumnValues::UInt32s(v) => descriptor.data_type == DataType::UInt32 && v@.len()
                    == rs.len() && (forall|i: int|
                    0 <= i < rs.len() ==> v@[i] == spec_opt_u32(
                        spec_lookup(#[trigger] rs[i], name),
                    )),
                ColumnValues::UInt64s(v) => descriptor.data_type == DataType::UInt64 && v@.len()
                    == rs.len() && (forall|i: int|
                    0 <= i < rs.len() ==> v@[i] == spec_opt_u64(
                        spec_lookup(#[trigger] rs[i], name),
                    )),
                ColumnValues::Float64Bits(v) => descriptor.data_type == DataType::Float64
                    && v@.len() == rs.len() && (forall|i: int|
                    0 <= i < rs.len() ==> v@[i] == spec_opt_float_bits(
                        spec_lookup(#[trigger] rs[i], name),
                    )),
                ColumnValues::Binaries(v) => (descriptor.data_type == DataType::Binary
                    || descriptor.data_type == DataType::LargeBinary) && v@.len() == rs.len()
                    && (forall|i: int|
                    0 <= i < rs.len() ==> (match v@[i] {
                        Some(b) => spec_opt_bytes(spec_lookup(#[trigger] rs[i], name))
                            == Some(b@),
                        None => spec_opt_bytes(spec_lookup(#[trigger] rs[i], name)) is None,
                    })),
                ColumnValues::Utf8s(v) => (descriptor.data_type == DataType::Utf8
                    || descriptor.data_type == DataType::LargeUtf8) && v@.len() == rs.len() && (
                forall|i: int|
                    0 <= i < rs.len() ==> (match v@[i] {
                        Some(s) => spec_opt_text(spec_lookup(#[trigger] rs[i], name)) == Some(
                            s@,
                        ),
                        None => spec_opt_text(spec_lookup(#[trigger] rs[i], name)) is None,
                    })),
                ColumnValues::Nulls(len) => descriptor.data_type == DataType::Unsupported && len
                    == rs.len(),
            }
        }),
{
    let ghost rs = records@.map(|_i: int, rec: Record| rec@);
    let field = descriptor.name.as_str();
    let n = records.len();
    match descriptor.data_type {
        DataType::Boolean => {
            let mut values: Vec<Option<bool>> = Vec::new();
            let mut i: usize = 0;
            while i < n
                invariant
                    n == records.len(),
                    rs == records@.map(|_i: int, rec: Record| rec@),
                    field@ == descriptor.name@,
                    i <= n,
                    values@.len() == i,
                    forall|j: int|
                        0 <= j < i ==> values@[j] == spec_opt_bool(
                            spec_lookup(#[trigger] rs[j], field@),
                        ),
                decreases n - i,
            {
                values.push(records[i].get_bool(field));
                i += 1;
            }
            ColumnValues::Booleans(values)
        },
        DataType::Int32 => {
            let mut values: Vec<Option<i32>> = Vec::new();
            let mut i: usize = 0;
            while i < n
                invariant
                    n == records.len(),
                    rs == records@.map(|_i: int, rec: Record| rec@),
                    field@ == descriptor.name@,
                    i <= n,
                    values@.len() == i,
                    forall|j: int|
                        0 <= j < i ==> values@[j] == spec_opt_i32(
                            spec_lookup(#[trigger] rs[j], field@),
                        ),
                decreases n - i,
            {
                values.push(records[i].get_i32(field));
                i += 1;
            }
            ColumnValues::Int32s(values)
        },
        DataType::Int64 => {
            let mut values: Vec<Option<i64>> = Vec::new();
            let mut i: usize = 0;
            while i < n
                invariant
                    n == records.len(),
                    rs == records@.map(|_i: int, rec: Record| rec@),
                    field@ == descriptor.name@,
                    i <= n,
                    values@.len() == i,
                    forall|j: int|
                        0 <= j < i ==> values@[j] == spec_opt_i64(
                            spec_lookup(#[trigger] rs[j], field@),
                        ),
                decreases n - i,
            {
                values.push(records[i].get_i64(field));
                i += 1;
            }
            ColumnValues::Int64s(values)
        },
        DataType::UInt16 => {
            let mut values: Vec<Option<u16>> = Vec::new();
            let mut i: usize = 0;
            while i < n
                invariant
                    n == records.len(),
                    rs == records@.map(|_i: int, rec: Record| rec@),
                    field@ == descriptor.name@,
                    i <= n,
                    values@.len() == i,
                    forall|j: int|
                        0 <= j < i ==> values@[j] == spec_opt_u16(
                            spec_lookup(#[trigger] rs[j], field@),
                        ),
                decreases n - i,
            {
                values.push(records[i].get_u16(field));
                i += 1;
            }
            ColumnValues::UInt16s(values)
        },
        DataType::UInt32 => {
            let mut values: Vec<Option<u32>> = Vec::new();
            let mut i: usize = 0;
            while i < n
                invariant
                    n == records.len(),
                    rs == records@.map(|_i: int, rec: Record| rec@),
                    field@ == descriptor.name@,
                    i <= n,
                    values@.len() == i,
                    forall|j: int|
                        0 <= j < i ==> values@[j] == spec_opt_u32(
                            spec_lookup(#[trigger] rs[j], field@),
                        ),
                decreases n - i,
            {
                values.push(records[i].get_u32(field));
                i += 1;
            }
            ColumnValues::UInt32s(values)
        },
        DataType::UInt64 => {
            let mut values: Vec<Option<u64>> = Vec::new();
            let mut i: usize = 0;
            while i < n
                invariant
                    n == records.len(),
                    rs == records@.map(|_i: int, rec: Record| rec@),
                    field@ == descriptor.name@,
                    i <= n,
                    values@.len() == i,
                    forall|j: int|
                        0 <= j < i ==> values@[j] == spec_opt_u64(
                            spec_lookup(#[trigger] rs[j], field@),
                        ),
                decreases n - i,
            {
                values.push(records[i].get_u64(field));
                i += 1;
            }
            ColumnValues::UInt64s(values)
        },
        DataType::Float64 => {
            let mut values: Vec<Option<u64>> = Vec::new();
            let mut i: usize = 0;
            while i < n
                invariant
                    n == records.len(),
                    rs == records@.map(|_i: int, rec: Record| rec@),
                    field@ == descriptor.name@,
                    i <= n,
                    values@.len() == i,
                    forall|j: int|
                        0 <= j < i ==> values@[j] == spec_opt_float_bits(
                            spec_lookup(#[trigger] rs[j], field@),
                        ),
                decreases n - i,
            {
                values.push(records[i].get_f64_bits(field));
                i += 1;
            }
            ColumnValues::Float64Bits(values)
        },
        DataType::Binary | DataType::LargeBinary => {
            let mut values: Vec<Option<Vec<u8>>> = Vec::new();
            let mut i: usize = 0;
            while i < n
                invariant
                    n == records.len(),
                    rs == records@.map(|_i: int, rec: Record| rec@),
                    field@ == descriptor.name@,
                    i <= n,
                    values@.len() == i,
                    forall|j: int|
                        0 <= j < i ==> (match values@[j] {
                            Some(b) => spec_opt_bytes(spec_lookup(#[trigger] rs[j], field@))
                                == Some(b@),
                            None => spec_opt_bytes(spec_lookup(#[trigger] rs[j], field@))
                                is None,
                        }),
                decreases n - i,
            {
                values.push(records[i].get_bytes(field));
                i += 1;
            }
            ColumnValues::Binaries(values)
        },
        DataType::Utf8 | DataType::LargeUtf8 => {
            let mut values: Vec<Option<String>> = Vec::new();
            let mut i: usize = 0;
            while i < n
                invariant
                    n == records.len(),
                    rs == records@.map(|_i: int, rec: Record| rec@),
                    field@ == descriptor.name@,
                    i <= n,
                    values@.len() == i,
                    forall|j: int|
                        0 <= j < i ==> (match values@[j] {
                            Some(s) => spec_opt_text(spec_lookup(#[trigger] rs[j], field@))
                                == Some(s@),
                            None => spec_opt_text(spec_lookup(#[trigger] rs[j], field@))
                                is None,
                        }),
                decreases n - i,
            {
                values.push(records[i].get_str(field));
                i += 1;
            }
            ColumnValues::Utf8s(values)
        },
        DataType::Unsupported => ColumnValues::Nulls(n),
    }
}

} // verus!
