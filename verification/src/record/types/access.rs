//! Access to a value by its variant: for every variant a test, a borrowing accessor
//! and a consuming one. An accessor of the wrong variant fails with a mismatch that
//! names the variant asked for and the variant found.

use crate::errors::{ParquetError, ValueKind};
use crate::record::types::group::Group;
use crate::record::types::list::List;
use crate::record::types::map::Mapping;
use crate::record::types::value::Value;
use crate::record::types::{Bson, Date, Decimal, Enum, Float32, Float64, Json, Time, Timestamp};
use vstd::prelude::*;

verus! {

/// The failure of an accessor for `expected` on a value of variant `actual`.
pub open spec fn mismatch(expected: ValueKind, actual: ValueKind) -> ParquetError {
    ParquetError::TypeMismatch { expected, actual_summary: actual }
}

impl Value {
    /// The failure of an accessor for `expected` on this value.
    fn mismatched(&self, expected: ValueKind) -> (e: ParquetError)
        ensures
            e == mismatch(expected, self.kind_of()),
    {
        ParquetError::TypeMismatch { expected, actual_summary: self.kind() }
    }

    /// Whether the value is a truth value.
    pub fn is_bool(&self) -> (b: bool)
        ensures
            b == (self is Bool),
    {
        match self {
            Value::Bool(_) => true,
            _ => false,
        }
    }

    /// Returns the payload of a value that is a truth value.
    pub fn as_bool(&self) -> (r: Result<bool, ParquetError>)
        ensures
            self is Bool ==> (r matches Ok(payload) && payload == self->Bool_0),
            !(self is Bool) ==> (r matches Err(e) && e == mismatch(ValueKind::Bool, self.kind_of())),
    {
        match self {
            Value::Bool(payload) => Ok(*payload),
            _ => Err(self.mismatched(ValueKind::Bool)),
        }
    }

    /// Returns the payload of a value that is a truth value, consuming the value.
    pub fn into_bool(self) -> (r: Result<bool, ParquetError>)
        ensures
            self is Bool ==> (r matches Ok(payload) && payload == self->Bool_0),
            !(self is Bool) ==> (r matches Err(e) && e == mismatch(ValueKind::Bool, self.kind_of())),
    {
        match self {
            Value::Bool(payload) => Ok(payload),
            other => Err(other.mismatched(ValueKind::Bool)),
        }
    }

    /// Whether the value is an unsigned integer of 8 bits.
    pub fn is_u8(&self) -> (b: bool)
        ensures
            b == (self is U8),
    {
        match self {
            Value::U8(_) => true,
            _ => false,
        }
    }

    /// Returns the payload of a value that is an unsigned integer of 8 bits.
    pub fn as_u8(&self) -> (r: Result<u8, ParquetError>)
        ensures
            self is U8 ==> (r matches Ok(payload) && payload == self->U8_0),
            !(self is U8) ==> (r matches Err(e) && e == mismatch(ValueKind::U8, self.kind_of())),
    {
        match self {
            Value::U8(payload) => Ok(*payload),
            _ => Err(self.mismatched(ValueKind::U8)),
        }
    }

    /// Returns the payload of a value that is an unsigned integer of 8 bits, consuming the value.
    pub fn into_u8(self) -> (r: Result<u8, ParquetError>)
        ensures
            self is U8 ==> (r matches Ok(payload) && payload == self->U8_0),
            !(self is U8) ==> (r matches Err(e) && e == mismatch(ValueKind::U8, self.kind_of())),
    {
        match self {
            Value::U8(payload) => Ok(payload),
            other => Err(other.mismatched(ValueKind::U8)),
        }
    }

    /// Whether the value is a signed integer of 8 bits.
    pub fn is_i8(&self) -> (b: bool)
        ensures
            b == (self is I8),
    {
        match self {
            Value::I8(_) => true,
            _ => false,
        }
    }

    /// Returns the payload of a value that is a signed integer of 8 bits.
    pub fn as_i8(&self) -> (r: Result<i8, ParquetError>)
        ensures
            self is I8 ==> (r matches Ok(payload) && payload == self->I8_0),
            !(self is I8) ==> (r matches Err(e) && e == mismatch(ValueKind::I8, self.kind_of())),
    {
        match self {
            Value::I8(payload) => Ok(*payload),
            _ => Err(self.mismatched(ValueKind::I8)),
        }
    }

    /// Returns the payload of a value that is a signed integer of 8 bits, consuming the value.
    pub fn into_i8(self) -> (r: Result<i8, ParquetError>)
        ensures
            self is I8 ==> (r matches Ok(payload) && payload == self->I8_0),
            !(self is I8) ==> (r matches Err(e) && e == mismatch(ValueKind::I8, self.kind_of())),
    {
        match self {
            Value::I8(payload) => Ok(payload),
            other => Err(other.mismatched(ValueKind::I8)),
        }
    }

    /// Whether the value is an unsigned integer of 16 bits.
    pub fn is_u16(&self) -> (b: bool)
        ensures
            b == (self is U16),
    {
        match self {
            Value::U16(_) => true,
            _ => false,
        }
    }

    /// Returns the payload of a value that is an unsigned integer of 16 bits.
    pub fn as_u16(&self) -> (r: Result<u16, ParquetError>)
        ensures
            self is U16 ==> (r matches Ok(payload) && payload == self->U16_0),
            !(self is U16) ==> (r matches Err(e) && e == mismatch(ValueKind::U16, self.kind_of())),
    {
        match self {
            Value::U16(payload) => Ok(*payload),
            _ => Err(self.mismatched(ValueKind::U16)),
        }
    }

    /// Returns the payload of a value that is an unsigned integer of 16 bits, consuming the value.
    pub fn into_u16(self) -> (r: Result<u16, ParquetError>)
        ensures
            self is U16 ==> (r matches Ok(payload) && payload == self->U16_0),
            !(self is U16) ==> (r matches Err(e) && e == mismatch(ValueKind::U16, self.kind_of())),
    {
        match self {
            Value::U16(payload) => Ok(payload),
            other => Err(other.mismatched(ValueKind::U16)),
        }
    }

    /// Whether the value is a signed integer of 16 bits.
    pub fn is_i16(&self) -> (b: bool)
        ensures
            b == (self is I16),
    {
        match self {
            Value::I16(_) => true,
            _ => false,
        }
    }

    /// Returns the payload of a value that is a signed integer of 16 bits.
    pub fn as_i16(&self) -> (r: Result<i16, ParquetError>)
        ensures
            self is I16 ==> (r matches Ok(payload) && payload == self->I16_0),
            !(self is I16) ==> (r matches Err(e) && e == mismatch(ValueKind::I16, self.kind_of())),
    {
        match self {
            Value::I16(payload) => Ok(*payload),
            _ => Err(self.mismatched(ValueKind::I16)),
        }
    }

    /// Returns the payload of a value that is a signed integer of 16 bits, consuming the value.
    pub fn into_i16(self) -> (r: Result<i16, ParquetError>)
        ensures
            self is I16 ==> (r matches Ok(payload) && payload == self->I16_0),
            !(self is I16) ==> (r matches Err(e) && e == mismatch(ValueKind::I16, self.kind_of())),
    {
        match self {
            Value::I16(payload) => Ok(payload),
            other => Err(other.mismatched(ValueKind::I16)),
        }
    }

    /// Whether the value is an unsigned integer of 32 bits.
    pub fn is_u32(&self) -> (b: bool)
        ensures
            b == (self is U32),
    {
        match self {
            Value::U32(_) => true,
            _ => false,
        }
    }

    /// Returns the payload of a value that is an unsigned integer of 32 bits.
    pub fn as_u32(&self) -> (r: Result<u32, ParquetError>)
        ensures
            self is U32 ==> (r matches Ok(payload) && payload == self->U32_0),
            !(self is U32) ==> (r matches Err(e) && e == mismatch(ValueKind::U32, self.kind_of())),
    {
        match self {
            Value::U32(payload) => Ok(*payload),
            _ => Err(self.mismatched(ValueKind::U32)),
        }
    }

    /// Returns the payload of a value that is an unsigned integer of 32 bits, consuming the value.
    pub fn into_u32(self) -> (r: Result<u32, ParquetError>)
        ensures
            self is U32 ==> (r matches Ok(payload) && payload == self->U32_0),
            !(self is U32) ==> (r matches Err(e) && e == mismatch(ValueKind::U32, self.kind_of())),
    {
        match self {
            Value::U32(payload) => Ok(payload),
            other => Err(other.mismatched(ValueKind::U32)),
        }
    }

    /// Whether the value is a signed integer of 32 bits.
    pub fn is_i32(&self) -> (b: bool)
        ensures
            b == (self is I32),
    {
        match self {
            Value::I32(_) => true,
            _ => false,
        }
    }

    /// Returns the payload of a value that is a signed integer of 32 bits.
    pub fn as_i32(&self) -> (r: Result<i32, ParquetError>)
        ensures
            self is I32 ==> (r matches Ok(payload) && payload == self->I32_0),
            !(self is I32) ==> (r matches Err(e) && e == mismatch(ValueKind::I32, self.kind_of())),
    {
        match self {
            Value::I32(payload) => Ok(*payload),
            _ => Err(self.mismatched(ValueKind::I32)),
        }
    }

    /// Returns the payload of a value that is a signed integer of 32 bits, consuming the value.
    pub fn into_i32(self) -> (r: Result<i32, ParquetError>)
        ensures
            self is I32 ==> (r matches Ok(payload) && payload == self->I32_0),
            !(self is I32) ==> (r matches Err(e) && e == mismatch(ValueKind::I32, self.kind_of())),
    {
        match self {
            Value::I32(payload) => Ok(payload),
            other => Err(other.mismatched(ValueKind::I32)),
        }
    }

    /// Whether the value is an unsigned integer of 64 bits.
    pub fn is_u64(&self) -> (b: bool)
        ensures
            b == (self is U64),
    {
        match self {
            Value::U64(_) => true,
            _ => false,
        }
    }

    /// Returns the payload of a value that is an unsigned integer of 64 bits.
    pub fn as_u64(&self) -> (r: Result<u64, ParquetError>)
        ensures
            self is U64 ==> (r matches Ok(payload) && payload == self->U64_0),
            !(self is U64) ==> (r matches Err(e) && e == mismatch(ValueKind::U64, self.kind_of())),
    {
        match self {
            Value::U64(payload) => Ok(*payload),
            _ => Err(self.mismatched(ValueKind::U64)),
        }
    }

    /// Returns the payload of a value that is an unsigned integer of 64 bits, consuming the value.
    pub fn into_u64(self) -> (r: Result<u64, ParquetError>)
        ensures
            self is U64 ==> (r matches Ok(payload) && payload == self->U64_0),
            !(self is U64) ==> (r matches Err(e) && e == mismatch(ValueKind::U64, self.kind_of())),
    {
        match self {
            Value::U64(payload) => Ok(payload),
            other => Err(other.mismatched(ValueKind::U64)),
        }
    }

    /// Whether the value is a signed integer of 64 bits.
    pub fn is_i64(&self) -> (b: bool)
        ensures
            b == (self is I64),
    {
        match self {
            Value::I64(_) => true,
            _ => false,
        }
    }

    /// Returns the payload of a value that is a signed integer of 64 bits.
    pub fn as_i64(&self) -> (r: Result<i64, ParquetError>)
        ensures
            self is I64 ==> (r matches Ok(payload) && payload == self->I64_0),
            !(self is I64) ==> (r matches Err(e) && e == mismatch(ValueKind::I64, self.kind_of())),
    {
        match self {
            Value::I64(payload) => Ok(*payload),
            _ => Err(self.mismatched(ValueKind::I64)),
        }
    }

    /// Returns the payload of a value that is a signed integer of 64 bits, consuming the value.
    pub fn into_i64(self) -> (r: Result<i64, ParquetError>)
        ensures
            self is I64 ==> (r matches Ok(payload) && payload == self->I64_0),
            !(self is I64) ==> (r matches Err(e) && e == mismatch(ValueKind::I64, self.kind_of())),
    {
        match self {
            Value::I64(payload) => Ok(payload),
            other => Err(other.mismatched(ValueKind::I64)),
        }
    }

    /// Whether the value is a floating point number of 32 bits.
    pub fn is_f32(&self) -> (b: bool)
        ensures
            b == (self is F32),
    {
        match self {
            Value::F32(_) => true,
            _ => false,
        }
    }

    /// Returns the payload of a value that is a floating point number of 32 bits.
    pub fn as_f32(&self) -> (r: Result<Float32, ParquetError>)
        ensures
            self is F32 ==> (r matches Ok(payload) && payload == self->F32_0),
            !(self is F32) ==> (r matches Err(e) && e == mismatch(ValueKind::F32, self.kind_of())),
    {
        match self {
            Value::F32(payload) => Ok(*payload),
            _ => Err(self.mismatched(ValueKind::F32)),
        }
    }

    /// Returns the payload of a value that is a floating point number of 32 bits, consuming the value.
    pub fn into_f32(self) -> (r: Result<Float32, ParquetError>)
        ensures
            self is F32 ==> (r matches Ok(payload) && payload == self->F32_0),
            !(self is F32) ==> (r matches Err(e) && e == mismatch(ValueKind::F32, self.kind_of())),
    {
        match self {
            Value::F32(payload) => Ok(payload),
            other => Err(other.mismatched(ValueKind::F32)),
        }
    }

    /// Whether the value is a floating point number of 64 bits.
    pub fn is_f64(&self) -> (b: bool)
        ensures
            b == (self is F64),
    {
        match self {
            Value::F64(_) => true,
            _ => false,
        }
    }

    /// Returns the payload of a value that is a floating point number of 64 bits.
    pub fn as_f64(&self) -> (r: Result<Float64, ParquetError>)
        ensures
            self is F64 ==> (r matches Ok(payload) && payload == self->F64_0),
            !(self is F64) ==> (r matches Err(e) && e == mismatch(ValueKind::F64, self.kind_of())),
    {
        match self {
            Value::F64(payload) => Ok(*payload),
            _ => Err(self.mismatched(ValueKind::F64)),
        }
    }

    /// Returns the payload of a value that is a floating point number of 64 bits, consuming the value.
    pub fn into_f64(self) -> (r: Result<Float64, ParquetError>)
        ensures
            self is F64 ==> (r matches Ok(payload) && payload == self->F64_0),
            !(self is F64) ==> (r matches Err(e) && e == mismatch(ValueKind::F64, self.kind_of())),
    {
        match self {
            Value::F64(payload) => Ok(payload),
            other => Err(other.mismatched(ValueKind::F64)),
        }
    }

    /// Whether the value is a date.
    pub fn is_date(&self) -> (b: bool)
        ensures
            b == (self is Date),
    {
        match self {
            Value::Date(_) => true,
            _ => false,
        }
    }

    /// Returns a reference to the payload of a value that is a date.
    pub fn as_date(&self) -> (r: Result<&Date, ParquetError>)
        ensures
            self is Date ==> (r matches Ok(payload) && *payload == self->Date_0),
            !(self is Date) ==> (r matches Err(e) && e == mismatch(ValueKind::Date, self.kind_of())),
    {
        match self {
            Value::Date(payload) => Ok(payload),
            _ => Err(self.mismatched(ValueKind::Date)),
        }
    }

    /// Returns the payload of a value that is a date, consuming the value.
    pub fn into_date(self) -> (r: Result<Date, ParquetError>)
        ensures
            self is Date ==> (r matches Ok(payload) && payload == self->Date_0),
            !(self is Date) ==> (r matches Err(e) && e == mismatch(ValueKind::Date, self.kind_of())),
    {
        match self {
            Value::Date(payload) => Ok(payload),
            other => Err(other.mismatched(ValueKind::Date)),
        }
    }

    /// Whether the value is a time of day.
    pub fn is_time(&self) -> (b: bool)
        ensures
            b == (self is Time),
    {
        match self {
            Value::Time(_) => true,
            _ => false,
        }
    }

    /// Returns a reference to the payload of a value that is a time of day.
    pub fn as_time(&self) -> (r: Result<&Time, ParquetError>)
        ensures
            self is Time ==> (r matches Ok(payload) && *payload == self->Time_0),
            !(self is Time) ==> (r matches Err(e) && e == mismatch(ValueKind::Time, self.kind_of())),
    {
        match self {
            Value::Time(payload) => Ok(payload),
            _ => Err(self.mismatched(ValueKind::Time)),
        }
    }

    /// Returns the payload of a value that is a time of day, consuming the value.
    pub fn into_time(self) -> (r: Result<Time, ParquetError>)
        ensures
            self is Time ==> (r matches Ok(payload) && payload == self->Time_0),
            !(self is Time) ==> (r matches Err(e) && e == mismatch(ValueKind::Time, self.kind_of())),
    {
        match self {
            Value::Time(payload) => Ok(payload),
            other => Err(other.mismatched(ValueKind::Time)),
        }
    }

    /// Whether the value is a timestamp.
    pub fn is_timestamp(&self) -> (b: bool)
        ensures
            b == (self is Timestamp),
    {
        match self {
            Value::Timestamp(_) => true,
            _ => false,
        }
    }

    /// Returns a reference to the payload of a value that is a timestamp.
    pub fn as_timestamp(&self) -> (r: Result<&Timestamp, ParquetError>)
        ensures
            self is Timestamp ==> (r matches Ok(payload) && *payload == self->Timestamp_0),
            !(self is Timestamp) ==> (r matches Err(e) && e == mismatch(ValueKind::Timestamp, self.kind_of())),
    {
        match self {
            Value::Timestamp(payload) => Ok(payload),
            _ => Err(self.mismatched(ValueKind::Timestamp)),
        }
    }

    /// Returns the payload of a value that is a timestamp, consuming the value.
    pub fn into_timestamp(self) -> (r: Result<Timestamp, ParquetError>)
        ensures
            self is Timestamp ==> (r matches Ok(payload) && payload == self->Timestamp_0),
            !(self is Timestamp) ==> (r matches Err(e) && e == mismatch(ValueKind::Timestamp, self.kind_of())),
    {
        match self {
            Value::Timestamp(payload) => Ok(payload),
            other => Err(other.mismatched(ValueKind::Timestamp)),
        }
    }

    /// Whether the value is a decimal.
    pub fn is_decimal(&self) -> (b: bool)
        ensures
            b == (self is Decimal),
    {
        match self {
            Value::Decimal(_) => true,
            _ => false,
        }
    }

    /// Returns a reference to the payload of a value that is a decimal.
    pub fn as_decimal(&self) -> (r: Result<&Decimal, ParquetError>)
        ensures
            self is Decimal ==> (r matches Ok(payload) && *payload == self->Decimal_0),
            !(self is Decimal) ==> (r matches Err(e) && e == mismatch(ValueKind::Decimal, self.kind_of())),
    {
        match self {
            Value::Decimal(payload) => Ok(payload),
            _ => Err(self.mismatched(ValueKind::Decimal)),
        }
    }

    /// Returns the payload of a value that is a decimal, consuming the value.
    pub fn into_decimal(self) -> (r: Result<Decimal, ParquetError>)
        ensures
            self is Decimal ==> (r matches Ok(payload) && payload == self->Decimal_0),
            !(self is Decimal) ==> (r matches Err(e) && e == mismatch(ValueKind::Decimal, self.kind_of())),
    {
        match self {
            Value::Decimal(payload) => Ok(payload),
            other => Err(other.mismatched(ValueKind::Decimal)),
        }
    }

    /// Whether the value is a byte array.
    pub fn is_byte_array(&self) -> (b: bool)
        ensures
            b == (self is ByteArray),
    {
        match self {
            Value::ByteArray(_) => true,
            _ => false,
        }
    }

    /// Returns a reference to the payload of a value that is a byte array.
    pub fn as_byte_array(&self) -> (r: Result<&Vec<u8>, ParquetError>)
        ensures
            self is ByteArray ==> (r matches Ok(payload) && *payload == self->ByteArray_0),
            !(self is ByteArray) ==> (r matches Err(e) && e == mismatch(ValueKind::ByteArray, self.kind_of())),
    {
        match self {
            Value::ByteArray(payload) => Ok(payload),
            _ => Err(self.mismatched(ValueKind::ByteArray)),
        }
    }

    /// Returns the payload of a value that is a byte array, consuming the value.
    pub fn into_byte_array(self) -> (r: Result<Vec<u8>, ParquetError>)
        ensures
            self is ByteArray ==> (r matches Ok(payload) && payload == self->ByteArray_0),
            !(self is ByteArray) ==> (r matches Err(e) && e == mismatch(ValueKind::ByteArray, self.kind_of())),
    {
        match self {
            Value::ByteArray(payload) => Ok(payload),
            other => Err(other.mismatched(ValueKind::ByteArray)),
        }
    }

    /// Whether the value is a BSON document.
    pub fn is_bson(&self) -> (b: bool)
        ensures
            b == (self is Bson),
    {
        match self {
            Value::Bson(_) => true,
            _ => false,
        }
    }

    /// Returns a reference to the payload of a value that is a BSON document.
    pub fn as_bson(&self) -> (r: Result<&Bson, ParquetError>)
        ensures
            self is Bson ==> (r matches Ok(payload) && *payload == self->Bson_0),
            !(self is Bson) ==> (r matches Err(e) && e == mismatch(ValueKind::Bson, self.kind_of())),
    {
        match self {
            Value::Bson(payload) => Ok(payload),
            _ => Err(self.mismatched(ValueKind::Bson)),
        }
    }

    /// Returns the payload of a value that is a BSON document, consuming the value.
    pub fn into_bson(self) -> (r: Result<Bson, ParquetError>)
        ensures
            self is Bson ==> (r matches Ok(payload) && payload == self->Bson_0),
            !(self is Bson) ==> (r matches Err(e) && e == mismatch(ValueKind::Bson, self.kind_of())),
    {
        match self {
            Value::Bson(payload) => Ok(payload),
            other => Err(other.mismatched(ValueKind::Bson)),
        }
    }

    /// Whether the value is a string.
    pub fn is_string(&self) -> (b: bool)
        ensures
            b == (self is String),
    {
        match self {
            Value::String(_) => true,
            _ => false,
        }
    }

    /// Returns a reference to the payload of a value that is a string.
    pub fn as_string(&self) -> (r: Result<&String, ParquetError>)
        ensures
            self is String ==> (r matches Ok(payload) && *payload == self->String_0),
            !(self is String) ==> (r matches Err(e) && e == mismatch(ValueKind::String, self.kind_of())),
    {
        match self {
            Value::String(payload) => Ok(payload),
            _ => Err(self.mismatched(ValueKind::String)),
        }
    }

    /// Returns the payload of a value that is a string, consuming the value.
    pub fn into_string(self) -> (r: Result<String, ParquetError>)
        ensures
            self is String ==> (r matches Ok(payload) && payload == self->String_0),
            !(self is String) ==> (r matches Err(e) && e == mismatch(ValueKind::String, self.kind_of())),
    {
        match self {
            Value::String(payload) => Ok(payload),
            other => Err(other.mismatched(ValueKind::String)),
        }
    }

    /// Whether the value is a JSON text.
    pub fn is_json(&self) -> (b: bool)
        ensures
            b == (self is Json),
    {
        match self {
            Value::Json(_) => true,
            _ => false,
        }
    }

    /// Returns a reference to the payload of a value that is a JSON text.
    pub fn as_json(&self) -> (r: Result<&Json, ParquetError>)
        ensures
            self is Json ==> (r matches Ok(payload) && *payload == self->Json_0),
            !(self is Json) ==> (r matches Err(e) && e == mismatch(ValueKind::Json, self.kind_of())),
    {
        match self {
            Value::Json(payload) => Ok(payload),
            _ => Err(self.mismatched(ValueKind::Json)),
        }
    }

    /// Returns the payload of a value that is a JSON text, consuming the value.
    pub fn into_json(self) -> (r: Result<Json, ParquetError>)
        ensures
            self is Json ==> (r matches Ok(payload) && payload == self->Json_0),
            !(self is Json) ==> (r matches Err(e) && e == mismatch(ValueKind::Json, self.kind_of())),
    {
        match self {
            Value::Json(payload) => Ok(payload),
            other => Err(other.mismatched(ValueKind::Json)),
        }
    }

    /// Whether the value is the name of a value of an enumeration.
    pub fn is_enum(&self) -> (b: bool)
        ensures
            b == (self is Enum),
    {
        match self {
            Value::Enum(_) => true,
            _ => false,
        }
    }

    /// Returns a reference to the payload of a value that is the name of a value of an enumeration.
    pub fn as_enum(&self) -> (r: Result<&Enum, ParquetError>)
        ensures
            self is Enum ==> (r matches Ok(payload) && *payload == self->Enum_0),
            !(self is Enum) ==> (r matches Err(e) && e == mismatch(ValueKind::Enum, self.kind_of())),
    {
        match self {
            Value::Enum(payload) => Ok(payload),
            _ => Err(self.mismatched(ValueKind::Enum)),
        }
    }

    /// Returns the payload of a value that is the name of a value of an enumeration, consuming the value.
    pub fn into_enum(self) -> (r: Result<Enum, ParquetError>)
        ensures
            self is Enum ==> (r matches Ok(payload) && payload == self->Enum_0),
            !(self is Enum) ==> (r matches Err(e) && e == mismatch(ValueKind::Enum, self.kind_of())),
    {
        match self {
            Value::Enum(payload) => Ok(payload),
            other => Err(other.mismatched(ValueKind::Enum)),
        }
    }

    /// Whether the value is a list.
    pub fn is_list(&self) -> (b: bool)
        ensures
            b == (self is List),
    {
        match self {
            Value::List(_) => true,
            _ => false,
        }
    }

    /// Returns a reference to the payload of a value that is a list.
    pub fn as_list(&self) -> (r: Result<&List<Value>, ParquetError>)
        ensures
            self is List ==> (r matches Ok(payload) && *payload == self->List_0),
            !(self is List) ==> (r matches Err(e) && e == mismatch(ValueKind::List, self.kind_of())),
    {
        match self {
            Value::List(payload) => Ok(payload),
            _ => Err(self.mismatched(ValueKind::List)),
        }
    }

    /// Returns the payload of a value that is a list, consuming the value.
    pub fn into_list(self) -> (r: Result<List<Value>, ParquetError>)
        ensures
            self is List ==> (r matches Ok(payload) && payload == self->List_0),
            !(self is List) ==> (r matches Err(e) && e == mismatch(ValueKind::List, self.kind_of())),
    {
        match self {
            Value::List(payload) => Ok(payload),
            other => Err(other.mismatched(ValueKind::List)),
        }
    }

    /// Whether the value is a map.
    pub fn is_map(&self) -> (b: bool)
        ensures
            b == (self is Mapping),
    {
        match self {
            Value::Mapping(_) => true,
            _ => false,
        }
    }

    /// Returns a reference to the payload of a value that is a map.
    pub fn as_map(&self) -> (r: Result<&Mapping<Value, Value>, ParquetError>)
        ensures
            self is Mapping ==> (r matches Ok(payload) && *payload == self->Mapping_0),
            !(self is Mapping) ==> (r matches Err(e) && e == mismatch(ValueKind::Mapping, self.kind_of())),
    {
        match self {
            Value::Mapping(payload) => Ok(payload),
            _ => Err(self.mismatched(ValueKind::Mapping)),
        }
    }

    /// Returns the payload of a value that is a map, consuming the value.
    pub fn into_map(self) -> (r: Result<Mapping<Value, Value>, ParquetError>)
        ensures
            self is Mapping ==> (r matches Ok(payload) && payload == self->Mapping_0),
            !(self is Mapping) ==> (r matches Err(e) && e == mismatch(ValueKind::Mapping, self.kind_of())),
    {
        match self {
            Value::Mapping(payload) => Ok(payload),
            other => Err(other.mismatched(ValueKind::Mapping)),
        }
    }

    /// Whether the value is a group.
    pub fn is_group(&self) -> (b: bool)
        ensures
            b == (self is Group),
    {
        match self {
            Value::Group(_) => true,
            _ => false,
        }
    }

    /// Returns a reference to the payload of a value that is a group.
    pub fn as_group(&self) -> (r: Result<&Group, ParquetError>)
        ensures
            self is Group ==> (r matches Ok(payload) && *payload == self->Group_0),
            !(self is Group) ==> (r matches Err(e) && e == mismatch(ValueKind::Group, self.kind_of())),
    {
        match self {
            Value::Group(payload) => Ok(payload),
            _ => Err(self.mismatched(ValueKind::Group)),
        }
    }

    /// Returns the payload of a value that is a group, consuming the value.
    pub fn into_group(self) -> (r: Result<Group, ParquetError>)
        ensures
            self is Group ==> (r matches Ok(payload) && payload == self->Group_0),
            !(self is Group) ==> (r matches Err(e) && e == mismatch(ValueKind::Group, self.kind_of())),
    {
        match self {
            Value::Group(payload) => Ok(payload),
            other => Err(other.mismatched(ValueKind::Group)),
        }
    }

    /// Whether the value is an optional value.
    pub fn is_option(&self) -> (b: bool)
        ensures
            b == (self is Option),
    {
        match self {
            Value::Option(_) => true,
            _ => false,
        }
    }

    /// Returns a reference to what an optional value holds.
    pub fn as_option(&self) -> (r: Result<&Option<Box<Value>>, ParquetError>)
        ensures
            self is Option ==> (r matches Ok(payload) && *payload == self->Option_0),
            !(self is Option) ==> (r matches Err(e) && e == mismatch(
                ValueKind::Option,
                self.kind_of(),
            )),
    {
        match self {
            Value::Option(payload) => Ok(payload),
            _ => Err(self.mismatched(ValueKind::Option)),
        }
    }

    /// Returns what an optional value holds, consuming the value.
    pub fn into_option(self) -> (r: Result<Option<Value>, ParquetError>)
        ensures
            self matches Value::Option(Some(inner)) ==> (r matches Ok(Some(payload)) && payload
                == *inner),
            self matches Value::Option(None) ==> (r matches Ok(None)),
            !(self is Option) ==> (r matches Err(e) && e == mismatch(
                ValueKind::Option,
                self.kind_of(),
            )),
    {
        match self {
            Value::Option(Some(inner)) => Ok(Some(*inner)),
            Value::Option(None) => Ok(None),
            other => Err(other.mismatched(ValueKind::Option)),
        }
    }
}

} // verus!
