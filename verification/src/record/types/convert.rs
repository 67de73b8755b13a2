//! Conversions between values and the types of their payloads: from a payload to
//! the value that holds it, and back, which fails on a value of another variant.

use crate::errors::{ParquetError, ValueKind};
use crate::record::types::access::mismatch;
use crate::record::types::group::Group;
use crate::record::types::list::List;
use crate::record::types::map::Mapping;
use crate::record::types::value::Value;
use crate::record::types::{Bson, Date, Decimal, Enum, Float32, Float64, Json, Time, Timestamp};
use vstd::prelude::*;
use crate::record::assembly::put;
use crate::record::types::equal::{lookup, same_value};
use crate::record::types::value::{entry_views, lemma_entry_views, ValueView};
use vstd::std_specs::convert::{FromSpec, FromSpecImpl};

verus! {

/// Conversion of a value to the type `T` of a payload.
pub trait Downcast<T>: Sized {
    /// Whether `r` is what the conversion of this value gives.
    spec fn downcasts_to(self, r: Result<T, ParquetError>) -> bool;

    /// Converts the value; fails where the value is of another variant.
    fn downcast(self) -> (r: Result<T, ParquetError>)
        ensures
            self.downcasts_to(r),
    ;
}

impl Downcast<Value> for Value {
    open spec fn downcasts_to(self, r: Result<Value, ParquetError>) -> bool {
        r == Ok::<Value, ParquetError>(self)
    }

    fn downcast(self) -> (r: Result<Value, ParquetError>) {
        Ok(self)
    }
}

impl From<bool> for Value {
    fn from(value: bool) -> (v: Self) {
        Value::Bool(value)
    }
}

impl FromSpecImpl<bool> for Value {
    open spec fn obeys_from_spec() -> bool {
        true
    }

    open spec fn from_spec(value: bool) -> Self {
        Value::Bool(value)
    }
}

impl Downcast<bool> for Value {
    open spec fn downcasts_to(self, r: Result<bool, ParquetError>) -> bool {
        match self {
            Value::Bool(payload) => r == Ok::<bool, ParquetError>(payload),
            _ => r == Err::<bool, ParquetError>(mismatch(ValueKind::Bool, self.kind_of())),
        }
    }

    fn downcast(self) -> (r: Result<bool, ParquetError>) {
        self.into_bool()
    }
}

/// A payload that is made a value and converted back is the payload again, and the
/// conversion gives nothing else.
pub proof fn lemma_round_trip_bool(payload: bool, r: Result<bool, ParquetError>)
    ensures
        <Value as vstd::std_specs::convert::FromSpec<bool>>::from_spec(payload).downcasts_to(r)
            <==> r == Ok::<bool, ParquetError>(payload),
{
}

impl From<u8> for Value {
    fn from(value: u8) -> (v: Self) {
        Value::U8(value)
    }
}

impl FromSpecImpl<u8> for Value {
    open spec fn obeys_from_spec() -> bool {
        true
    }

    open spec fn from_spec(value: u8) -> Self {
        Value::U8(value)
    }
}

impl Downcast<u8> for Value {
    open spec fn downcasts_to(self, r: Result<u8, ParquetError>) -> bool {
        match self {
            Value::U8(payload) => r == Ok::<u8, ParquetError>(payload),
            _ => r == Err::<u8, ParquetError>(mismatch(ValueKind::U8, self.kind_of())),
        }
    }

    fn downcast(self) -> (r: Result<u8, ParquetError>) {
        self.into_u8()
    }
}

/// A payload that is made a value and converted back is the payload again, and the
/// conversion gives nothing else.
pub proof fn lemma_round_trip_u8(payload: u8, r: Result<u8, ParquetError>)
    ensures
        <Value as vstd::std_specs::convert::FromSpec<u8>>::from_spec(payload).downcasts_to(r)
            <==> r == Ok::<u8, ParquetError>(payload),
{
}

impl From<i8> for Value {
    fn from(value: i8) -> (v: Self) {
        Value::I8(value)
    }
}

impl FromSpecImpl<i8> for Value {
    open spec fn obeys_from_spec() -> bool {
        true
    }

    open spec fn from_spec(value: i8) -> Self {
        Value::I8(value)
    }
}

impl Downcast<i8> for Value {
    open spec fn downcasts_to(self, r: Result<i8, ParquetError>) -> bool {
        match self {
            Value::I8(payload) => r == Ok::<i8, ParquetError>(payload),
            _ => r == Err::<i8, ParquetError>(mismatch(ValueKind::I8, self.kind_of())),
        }
    }

    fn downcast(self) -> (r: Result<i8, ParquetError>) {
        self.into_i8()
    }
}

/// A payload that is made a value and converted back is the payload again, and the
/// conversion gives nothing else.
pub proof fn lemma_round_trip_i8(payload: i8, r: Result<i8, ParquetError>)
    ensures
        <Value as vstd::std_specs::convert::FromSpec<i8>>::from_spec(payload).downcasts_to(r)
            <==> r == Ok::<i8, ParquetError>(payload),
{
}

impl From<u16> for Value {
    fn from(value: u16) -> (v: Self) {
        Value::U16(value)
    }
}

impl FromSpecImpl<u16> for Value {
    open spec fn obeys_from_spec() -> bool {
        true
    }

    open spec fn from_spec(value: u16) -> Self {
        Value::U16(value)
    }
}

impl Downcast<u16> for Value {
    open spec fn downcasts_to(self, r: Result<u16, ParquetError>) -> bool {
        match self {
            Value::U16(payload) => r == Ok::<u16, ParquetError>(payload),
            _ => r == Err::<u16, ParquetError>(mismatch(ValueKind::U16, self.kind_of())),
        }
    }

    fn downcast(self) -> (r: Result<u16, ParquetError>) {
        self.into_u16()
    }
}

/// A payload that is made a value and converted back is the payload again, and the
/// conversion gives nothing else.
pub proof fn lemma_round_trip_u16(payload: u16, r: Result<u16, ParquetError>)
    ensures
        <Value as vstd::std_specs::convert::FromSpec<u16>>::from_spec(payload).downcasts_to(r)
            <==> r == Ok::<u16, ParquetError>(payload),
{
}

impl From<i16> for Value {
    fn from(value: i16) -> (v: Self) {
        Value::I16(value)
    }
}

impl FromSpecImpl<i16> for Value {
    open spec fn obeys_from_spec() -> bool {
        true
    }

    open spec fn from_spec(value: i16) -> Self {
        Value::I16(value)
    }
}

impl Downcast<i16> for Value {
    open spec fn downcasts_to(self, r: Result<i16, ParquetError>) -> bool {
        match self {
            Value::I16(payload) => r == Ok::<i16, ParquetError>(payload),
            _ => r == Err::<i16, ParquetError>(mismatch(ValueKind::I16, self.kind_of())),
        }
    }

    fn downcast(self) -> (r: Result<i16, ParquetError>) {
        self.into_i16()
    }
}

/// A payload that is made a value and converted back is the payload again, and the
/// conversion gives nothing else.
pub proof fn lemma_round_trip_i16(payload: i16, r: Result<i16, ParquetError>)
    ensures
        <Value as vstd::std_specs::convert::FromSpec<i16>>::from_spec(payload).downcasts_to(r)
            <==> r == Ok::<i16, ParquetError>(payload),
{
}

impl From<u32> for Value {
    fn from(value: u32) -> (v: Self) {
        Value::U32(value)
    }
}

impl FromSpecImpl<u32> for Value {
    open spec fn obeys_from_spec() -> bool {
        true
    }

    open spec fn from_spec(value: u32) -> Self {
        Value::U32(value)
    }
}

impl Downcast<u32> for Value {
    open spec fn downcasts_to(self, r: Result<u32, ParquetError>) -> bool {
        match self {
            Value::U32(payload) => r == Ok::<u32, ParquetError>(payload),
            _ => r == Err::<u32, ParquetError>(mismatch(ValueKind::U32, self.kind_of())),
        }
    }

    fn downcast(self) -> (r: Result<u32, ParquetError>) {
        self.into_u32()
    }
}

/// A payload that is made a value and converted back is the payload again, and the
/// conversion gives nothing else.
pub proof fn lemma_round_trip_u32(payload: u32, r: Result<u32, ParquetError>)
    ensures
        <Value as vstd::std_specs::convert::FromSpec<u32>>::from_spec(payload).downcasts_to(r)
            <==> r == Ok::<u32, ParquetError>(payload),
{
}

impl From<i32> for Value {
    fn from(value: i32) -> (v: Self) {
        Value::I32(value)
    }
}

impl FromSpecImpl<i32> for Value {
    open spec fn obeys_from_spec() -> bool {
        true
    }

    open spec fn from_spec(value: i32) -> Self {
        Value::I32(value)
    }
}

impl Downcast<i32> for Value {
    open spec fn downcasts_to(self, r: Result<i32, ParquetError>) -> bool {
        match self {
            Value::I32(payload) => r == Ok::<i32, ParquetError>(payload),
            _ => r == Err::<i32, ParquetError>(mismatch(ValueKind::I32, self.kind_of())),
        }
    }

    fn downcast(self) -> (r: Result<i32, ParquetError>) {
        self.into_i32()
    }
}

/// A payload that is made a value and converted back is the payload again, and the
/// conversion gives nothing else.
pub proof fn lemma_round_trip_i32(payload: i32, r: Result<i32, ParquetError>)
    ensures
        <Value as vstd::std_specs::convert::FromSpec<i32>>::from_spec(payload).downcasts_to(r)
            <==> r == Ok::<i32, ParquetError>(payload),
{
}

impl From<u64> for Value {
    fn from(value: u64) -> (v: Self) {
        Value::U64(value)
    }
}

impl FromSpecImpl<u64> for Value {
    open spec fn obeys_from_spec() -> bool {
        true
    }

    open spec fn from_spec(value: u64) -> Self {
        Value::U64(value)
    }
}

impl Downcast<u64> for Value {
    open spec fn downcasts_to(self, r: Result<u64, ParquetError>) -> bool {
        match self {
            Value::U64(payload) => r == Ok::<u64, ParquetError>(payload),
            _ => r == Err::<u64, ParquetError>(mismatch(ValueKind::U64, self.kind_of())),
        }
    }

    fn downcast(self) -> (r: Result<u64, ParquetError>) {
        self.into_u64()
    }
}

/// A payload that is made a value and converted back is the payload again, and the
/// conversion gives nothing else.
pub proof fn lemma_round_trip_u64(payload: u64, r: Result<u64, ParquetError>)
    ensures
        <Value as vstd::std_specs::convert::FromSpec<u64>>::from_spec(payload).downcasts_to(r)
            <==> r == Ok::<u64, ParquetError>(payload),
{
}

impl From<i64> for Value {
    fn from(value: i64) -> (v: Self) {
        Value::I64(value)
    }
}

impl FromSpecImpl<i64> for Value {
    open spec fn obeys_from_spec() -> bool {
        true
    }

    open spec fn from_spec(value: i64) -> Self {
        Value::I64(value)
    }
}

impl Downcast<i64> for Value {
    open spec fn downcasts_to(self, r: Result<i64, ParquetError>) -> bool {
        match self {
            Value::I64(payload) => r == Ok::<i64, ParquetError>(payload),
            _ => r == Err::<i64, ParquetError>(mismatch(ValueKind::I64, self.kind_of())),
        }
    }

    fn downcast(self) -> (r: Result<i64, ParquetError>) {
        self.into_i64()
    }
}

/// A payload that is made a value and converted back is the payload again, and the
/// conversion gives nothing else.
pub proof fn lemma_round_trip_i64(payload: i64, r: Result<i64, ParquetError>)
    ensures
        <Value as vstd::std_specs::convert::FromSpec<i64>>::from_spec(payload).downcasts_to(r)
            <==> r == Ok::<i64, ParquetError>(payload),
{
}

impl From<Float32> for Value {
    fn from(value: Float32) -> (v: Self) {
        Value::F32(value)
    }
}

impl FromSpecImpl<Float32> for Value {
    open spec fn obeys_from_spec() -> bool {
        true
    }

    open spec fn from_spec(value: Float32) -> Self {
        Value::F32(value)
    }
}

impl Downcast<Float32> for Value {
    open spec fn downcasts_to(self, r: Result<Float32, ParquetError>) -> bool {
        match self {
            Value::F32(payload) => r == Ok::<Float32, ParquetError>(payload),
            _ => r == Err::<Float32, ParquetError>(mismatch(ValueKind::F32, self.kind_of())),
        }
    }

    fn downcast(self) -> (r: Result<Float32, ParquetError>) {
        self.into_f32()
    }
}

/// A payload that is made a value and converted back is the payload again, and the
/// conversion gives nothing else.
pub proof fn lemma_round_trip_f32(payload: Float32, r: Result<Float32, ParquetError>)
    ensures
        <Value as vstd::std_specs::convert::FromSpec<Float32>>::from_spec(payload).downcasts_to(r)
            <==> r == Ok::<Float32, ParquetError>(payload),
{
}

impl From<Float64> for Value {
    fn from(value: Float64) -> (v: Self) {
        Value::F64(value)
    }
}

impl FromSpecImpl<Float64> for Value {
    open spec fn obeys_from_spec() -> bool {
        true
    }

    open spec fn from_spec(value: Float64) -> Self {
        Value::F64(value)
    }
}

impl Downcast<Float64> for Value {
    open spec fn downcasts_to(self, r: Result<Float64, ParquetError>) -> bool {
        match self {
            Value::F64(payload) => r == Ok::<Float64, ParquetError>(payload),
            _ => r == Err::<Float64, ParquetError>(mismatch(ValueKind::F64, self.kind_of())),
        }
    }

    fn downcast(self) -> (r: Result<Float64, ParquetError>) {
        self.into_f64()
    }
}

/// A payload that is made a value and converted back is the payload again, and the
/// conversion gives nothing else.
pub proof fn lemma_round_trip_f64(payload: Float64, r: Result<Float64, ParquetError>)
    ensures
        <Value as vstd::std_specs::convert::FromSpec<Float64>>::from_spec(payload).downcasts_to(r)
            <==> r == Ok::<Float64, ParquetError>(payload),
{
}

impl From<Date> for Value {
    fn from(value: Date) -> (v: Self) {
        Value::Date(value)
    }
}

impl FromSpecImpl<Date> for Value {
    open spec fn obeys_from_spec() -> bool {
        true
    }

    open spec fn from_spec(value: Date) -> Self {
        Value::Date(value)
    }
}

impl Downcast<Date> for Value {
    open spec fn downcasts_to(self, r: Result<Date, ParquetError>) -> bool {
        match self {
            Value::Date(payload) => r == Ok::<Date, ParquetError>(payload),
            _ => r == Err::<Date, ParquetError>(mismatch(ValueKind::Date, self.kind_of())),
        }
    }

    fn downcast(self) -> (r: Result<Date, ParquetError>) {
        self.into_date()
    }
}

/// A payload that is made a value and converted back is the payload again, and the
/// conversion gives nothing else.
pub proof fn lemma_round_trip_date(payload: Date, r: Result<Date, ParquetError>)
    ensures
        <Value as vstd::std_specs::convert::FromSpec<Date>>::from_spec(payload).downcasts_to(r)
            <==> r == Ok::<Date, ParquetError>(payload),
{
}

impl From<Time> for Value {
    fn from(value: Time) -> (v: Self) {
        Value::Time(value)
    }
}

impl FromSpecImpl<Time> for Value {
    open spec fn obeys_from_spec() -> bool {
        true
    }

    open spec fn from_spec(value: Time) -> Self {
        Value::Time(value)
    }
}

impl Downcast<Time> for Value {
    open spec fn downcasts_to(self, r: Result<Time, ParquetError>) -> bool {
        match self {
            Value::Time(payload) => r == Ok::<Time, ParquetError>(payload),
            _ => r == Err::<Time, ParquetError>(mismatch(ValueKind::Time, self.kind_of())),
        }
    }

    fn downcast(self) -> (r: Result<Time, ParquetError>) {
        self.into_time()
    }
}

/// A payload that is made a value and converted back is the payload again, and the
/// conversion gives nothing else.
pub proof fn lemma_round_trip_time(payload: Time, r: Result<Time, ParquetError>)
    ensures
        <Value as vstd::std_specs::convert::FromSpec<Time>>::from_spec(payload).downcasts_to(r)
            <==> r == Ok::<Time, ParquetError>(payload),
{
}

impl From<Timestamp> for Value {
    fn from(value: Timestamp) -> (v: Self) {
        Value::Timestamp(value)
    }
}

impl FromSpecImpl<Timestamp> for Value {
    open spec fn obeys_from_spec() -> bool {
        true
    }

    open spec fn from_spec(value: Timestamp) -> Self {
        Value::Timestamp(value)
    }
}

impl Downcast<Timestamp> for Value {
    open spec fn downcasts_to(self, r: Result<Timestamp, ParquetError>) -> bool {
        match self {
            Value::Timestamp(payload) => r == Ok::<Timestamp, ParquetError>(payload),
            _ => r == Err::<Timestamp, ParquetError>(mismatch(ValueKind::Timestamp, self.kind_of())),
        }
    }

    fn downcast(self) -> (r: Result<Timestamp, ParquetError>) {
        self.into_timestamp()
    }
}

/// A payload that is made a value and converted back is the payload again, and the
/// conversion gives nothing else.
pub proof fn lemma_round_trip_timestamp(payload: Timestamp, r: Result<Timestamp, ParquetError>)
    ensures
        <Value as vstd::std_specs::convert::FromSpec<Timestamp>>::from_spec(payload).downcasts_to(r)
            <==> r == Ok::<Timestamp, ParquetError>(payload),
{
}

impl From<Decimal> for Value {
    fn from(value: Decimal) -> (v: Self) {
        Value::Decimal(value)
    }
}

impl FromSpecImpl<Decimal> for Value {
    open spec fn obeys_from_spec() -> bool {
        true
    }

    open spec fn from_spec(value: Decimal) -> Self {
        Value::Decimal(value)
    }
}

impl Downcast<Decimal> for Value {
    open spec fn downcasts_to(self, r: Result<Decimal, ParquetError>) -> bool {
        match self {
            Value::Decimal(payload) => r == Ok::<Decimal, ParquetError>(payload),
            _ => r == Err::<Decimal, ParquetError>(mismatch(ValueKind::Decimal, self.kind_of())),
        }
    }

    fn downcast(self) -> (r: Result<Decimal, ParquetError>) {
        self.into_decimal()
    }
}

/// A payload that is made a value and converted back is the payload again, and the
/// conversion gives nothing else.
pub proof fn lemma_round_trip_decimal(payload: Decimal, r: Result<Decimal, ParquetError>)
    ensures
        <Value as vstd::std_specs::convert::FromSpec<Decimal>>::from_spec(payload).downcasts_to(r)
            <==> r == Ok::<Decimal, ParquetError>(payload),
{
}

impl From<Vec<u8>> for Value {
    fn from(value: Vec<u8>) -> (v: Self) {
        Value::ByteArray(value)
    }
}

impl FromSpecImpl<Vec<u8>> for Value {
    open spec fn obeys_from_spec() -> bool {
        true
    }

    open spec fn from_spec(value: Vec<u8>) -> Self {
        Value::ByteArray(value)
    }
}

impl Downcast<Vec<u8>> for Value {
    open spec fn downcasts_to(self, r: Result<Vec<u8>, ParquetError>) -> bool {
        match self {
            Value::ByteArray(payload) => r == Ok::<Vec<u8>, ParquetError>(payload),
            _ => r == Err::<Vec<u8>, ParquetError>(mismatch(ValueKind::ByteArray, self.kind_of())),
        }
    }

    fn downcast(self) -> (r: Result<Vec<u8>, ParquetError>) {
        self.into_byte_array()
    }
}

/// A payload that is made a value and converted back is the payload again, and the
/// conversion gives nothing else.
pub proof fn lemma_round_trip_byte_array(payload: Vec<u8>, r: Result<Vec<u8>, ParquetError>)
    ensures
        <Value as vstd::std_specs::convert::FromSpec<Vec<u8>>>::from_spec(payload).downcasts_to(r)
            <==> r == Ok::<Vec<u8>, ParquetError>(payload),
{
}

impl From<Bson> for Value {
    fn from(value: Bson) -> (v: Self) {
        Value::Bson(value)
    }
}

impl FromSpecImpl<Bson> for Value {
    open spec fn obeys_from_spec() -> bool {
        true
    }

    open spec fn from_spec(value: Bson) -> Self {
        Value::Bson(value)
    }
}

impl Downcast<Bson> for Value {
    open spec fn downcasts_to(self, r: Result<Bson, ParquetError>) -> bool {
        match self {
            Value::Bson(payload) => r == Ok::<Bson, ParquetError>(payload),
            _ => r == Err::<Bson, ParquetError>(mismatch(ValueKind::Bson, self.kind_of())),
        }
    }

    fn downcast(self) -> (r: Result<Bson, ParquetError>) {
        self.into_bson()
    }
}

/// A payload that is made a value and converted back is the payload again, and the
/// conversion gives nothing else.
pub proof fn lemma_round_trip_bson(payload: Bson, r: Result<Bson, ParquetError>)
    ensures
        <Value as vstd::std_specs::convert::FromSpec<Bson>>::from_spec(payload).downcasts_to(r)
            <==> r == Ok::<Bson, ParquetError>(payload),
{
}

impl From<String> for Value {
    fn from(value: String) -> (v: Self) {
        Value::String(value)
    }
}

impl FromSpecImpl<String> for Value {
    open spec fn obeys_from_spec() -> bool {
        true
    }

    open spec fn from_spec(value: String) -> Self {
        Value::String(value)
    }
}

impl Downcast<String> for Value {
    open spec fn downcasts_to(self, r: Result<String, ParquetError>) -> bool {
        match self {
            Value::String(payload) => r == Ok::<String, ParquetError>(payload),
            _ => r == Err::<String, ParquetError>(mismatch(ValueKind::String, self.kind_of())),
        }
    }

    fn downcast(self) -> (r: Result<String, ParquetError>) {
        self.into_string()
    }
}

/// A payload that is made a value and converted back is the payload again, and the
/// conversion gives nothing else.
pub proof fn lemma_round_trip_string(payload: String, r: Result<String, ParquetError>)
    ensures
        <Value as vstd::std_specs::convert::FromSpec<String>>::from_spec(payload).downcasts_to(r)
            <==> r == Ok::<String, ParquetError>(payload),
{
}

impl From<Json> for Value {
    fn from(value: Json) -> (v: Self) {
        Value::Json(value)
    }
}

impl FromSpecImpl<Json> for Value {
    open spec fn obeys_from_spec() -> bool {
        true
    }

    open spec fn from_spec(value: Json) -> Self {
        Value::Json(value)
    }
}

impl Downcast<Json> for Value {
    open spec fn downcasts_to(self, r: Result<Json, ParquetError>) -> bool {
        match self {
            Value::Json(payload) => r == Ok::<Json, ParquetError>(payload),
            _ => r == Err::<Json, ParquetError>(mismatch(ValueKind::Json, self.kind_of())),
        }
    }

    fn downcast(self) -> (r: Result<Json, ParquetError>) {
        self.into_json()
    }
}

/// A payload that is made a value and converted back is the payload again, and the
/// conversion gives nothing else.
pub proof fn lemma_round_trip_json(payload: Json, r: Result<Json, ParquetError>)
    ensures
        <Value as vstd::std_specs::convert::FromSpec<Json>>::from_spec(payload).downcasts_to(r)
            <==> r == Ok::<Json, ParquetError>(payload),
{
}

impl From<Enum> for Value {
    fn from(value: Enum) -> (v: Self) {
        Value::Enum(value)
    }
}

impl FromSpecImpl<Enum> for Value {
    open spec fn obeys_from_spec() -> bool {
        true
    }

    open spec fn from_spec(value: Enum) -> Self {
        Value::Enum(value)
    }
}

impl Downcast<Enum> for Value {
    open spec fn downcasts_to(self, r: Result<Enum, ParquetError>) -> bool {
        match self {
            Value::Enum(payload) => r == Ok::<Enum, ParquetError>(payload),
            _ => r == Err::<Enum, ParquetError>(mismatch(ValueKind::Enum, self.kind_of())),
        }
    }

    fn downcast(self) -> (r: Result<Enum, ParquetError>) {
        self.into_enum()
    }
}

/// A payload that is made a value and converted back is the payload again, and the
/// conversion gives nothing else.
pub proof fn lemma_round_trip_enum(payload: Enum, r: Result<Enum, ParquetError>)
    ensures
        <Value as vstd::std_specs::convert::FromSpec<Enum>>::from_spec(payload).downcasts_to(r)
            <==> r == Ok::<Enum, ParquetError>(payload),
{
}

impl From<List<Value>> for Value {
    fn from(value: List<Value>) -> (v: Self) {
        Value::List(value)
    }
}

impl FromSpecImpl<List<Value>> for Value {
    open spec fn obeys_from_spec() -> bool {
        true
    }

    open spec fn from_spec(value: List<Value>) -> Self {
        Value::List(value)
    }
}

impl Downcast<List<Value>> for Value {
    open spec fn downcasts_to(self, r: Result<List<Value>, ParquetError>) -> bool {
        match self {
            Value::List(payload) => r == Ok::<List<Value>, ParquetError>(payload),
            _ => r == Err::<List<Value>, ParquetError>(mismatch(ValueKind::List, self.kind_of())),
        }
    }

    fn downcast(self) -> (r: Result<List<Value>, ParquetError>) {
        self.into_list()
    }
}

/// A payload that is made a value and converted back is the payload again, and the
/// conversion gives nothing else.
pub proof fn lemma_round_trip_list(payload: List<Value>, r: Result<List<Value>, ParquetError>)
    ensures
        <Value as vstd::std_specs::convert::FromSpec<List<Value>>>::from_spec(payload).downcasts_to(r)
            <==> r == Ok::<List<Value>, ParquetError>(payload),
{
}

impl From<Mapping<Value, Value>> for Value {
    fn from(value: Mapping<Value, Value>) -> (v: Self) {
        Value::Mapping(value)
    }
}

impl FromSpecImpl<Mapping<Value, Value>> for Value {
    open spec fn obeys_from_spec() -> bool {
        true
    }

    open spec fn from_spec(value: Mapping<Value, Value>) -> Self {
        Value::Mapping(value)
    }
}

impl Downcast<Mapping<Value, Value>> for Value {
    open spec fn downcasts_to(self, r: Result<Mapping<Value, Value>, ParquetError>) -> bool {
        match self {
            Value::Mapping(payload) => r == Ok::<Mapping<Value, Value>, ParquetError>(payload),
            _ => r == Err::<Mapping<Value, Value>, ParquetError>(mismatch(ValueKind::Mapping, self.kind_of())),
        }
    }

    fn downcast(self) -> (r: Result<Mapping<Value, Value>, ParquetError>) {
        self.into_map()
    }
}

/// A payload that is made a value and converted back is the payload again, and the
/// conversion gives nothing else.
pub proof fn lemma_round_trip_map(payload: Mapping<Value, Value>, r: Result<Mapping<Value, Value>, ParquetError>)
    ensures
        <Value as vstd::std_specs::convert::FromSpec<Mapping<Value, Value>>>::from_spec(payload).downcasts_to(r)
            <==> r == Ok::<Mapping<Value, Value>, ParquetError>(payload),
{
}

impl From<Group> for Value {
    fn from(value: Group) -> (v: Self) {
        Value::Group(value)
    }
}

impl FromSpecImpl<Group> for Value {
    open spec fn obeys_from_spec() -> bool {
        true
    }

    open spec fn from_spec(value: Group) -> Self {
        Value::Group(value)
    }
}

impl Downcast<Group> for Value {
    open spec fn downcasts_to(self, r: Result<Group, ParquetError>) -> bool {
        match self {
            Value::Group(payload) => r == Ok::<Group, ParquetError>(payload),
            _ => r == Err::<Group, ParquetError>(mismatch(ValueKind::Group, self.kind_of())),
        }
    }

    fn downcast(self) -> (r: Result<Group, ParquetError>) {
        self.into_group()
    }
}

/// A payload that is made a value and converted back is the payload again, and the
/// conversion gives nothing else.
pub proof fn lemma_round_trip_group(payload: Group, r: Result<Group, ParquetError>)
    ensures
        <Value as vstd::std_specs::convert::FromSpec<Group>>::from_spec(payload).downcasts_to(r)
            <==> r == Ok::<Group, ParquetError>(payload),
{
}

impl Value {
    /// Makes an optional value of what may be a value.
    pub fn from_option(value: Option<Value>) -> (v: Value)
        requires
            value matches Some(inner) ==> !(inner is Option),
        ensures
            v == option_value(value),
    {
        match value {
            Some(inner) => Value::Option(Some(Box::new(inner))),
            None => Value::Option(None),
        }
    }
}

/// The optional value that holds `value`.
pub open spec fn option_value(value: Option<Value>) -> Value {
    match value {
        Some(inner) => Value::Option(Some(Box::new(inner))),
        None => Value::Option(None),
    }
}

impl Downcast<Option<Value>> for Value {
    open spec fn downcasts_to(self, r: Result<Option<Value>, ParquetError>) -> bool {
        match self {
            Value::Option(Some(inner)) => r == Ok::<Option<Value>, ParquetError>(Some(*inner)),
            Value::Option(None) => r == Ok::<Option<Value>, ParquetError>(None),
            _ => r == Err::<Option<Value>, ParquetError>(
                mismatch(ValueKind::Option, self.kind_of()),
            ),
        }
    }

    fn downcast(self) -> (r: Result<Option<Value>, ParquetError>) {
        self.into_option()
    }
}

/// What may be a value, made an optional value and converted back, is itself again,
/// and the conversion gives nothing else.
pub proof fn lemma_round_trip_option(value: Option<Value>, r: Result<Option<Value>, ParquetError>)
    ensures
        option_value(value).downcasts_to(r) <==> r == Ok::<Option<Value>, ParquetError>(value),
{
}

/// Whether `payloads` are what the conversion of the first of `values` gives, one
/// payload for each of them.
pub open spec fn first_downcast_to<T>(values: Seq<Value>, payloads: Seq<T>) -> bool where
    Value: Downcast<T>,
 {
    payloads.len() <= values.len() && forall|i: int|
        0 <= i < payloads.len() ==> (#[trigger] values[i]).downcasts_to(
            Ok::<T, ParquetError>(payloads[i]),
        )
}

/// Whether `r` is what the conversion of every value of `values`, first to last,
/// gives: the payloads, or the failure of the first value that fails.
pub open spec fn all_downcast_to<T>(values: Seq<Value>, r: Result<Seq<T>, ParquetError>) -> bool where
    Value: Downcast<T>,
 {
    match r {
        Ok(payloads) => payloads.len() == values.len() && first_downcast_to(values, payloads),
        Err(e) => exists|before: Seq<T>| #[trigger]
            first_downcast_to(values, before) && before.len() < values.len()
                && values[before.len() as int].downcasts_to(Err::<T, ParquetError>(e)),
    }
}

/// Returns the elements of `v` in the opposite order.
pub fn reversed<T>(v: Vec<T>) -> (r: Vec<T>)
    ensures
        r@.len() == v@.len(),
        forall|k: int| 0 <= k < r@.len() ==> r@[k] == v@[v@.len() - 1 - k],
{
    let mut rest = v;
    let mut r: Vec<T> = Vec::new();
    while rest.len() > 0
        invariant
            r@.len() + rest@.len() == v@.len(),
            forall|k: int| 0 <= k < rest@.len() ==> rest@[k] == v@[k],
            forall|k: int| 0 <= k < r@.len() ==> r@[k] == v@[v@.len() - 1 - k],
        decreases rest@.len(),
    {
        let x = rest.pop().unwrap();
        r.push(x);
    }
    r
}

impl Value {
    /// Makes a list value of a list of payloads: each payload made a value.
    pub fn from_list<T>(list: List<T>) -> (v: Value) where Value: From<T>
        ensures
            v is List,
            v->List_0.0@.len() == list.0@.len(),
            <Value as FromSpec<T>>::obeys_from_spec() ==> forall|i: int|
                0 <= i < list.0@.len() ==> #[trigger] v->List_0.0@[i] == <Value as FromSpec<
                    T,
                >>::from_spec(list.0@[i]),
    {
        let ghost source = list.0@;
        let mut rest = reversed(list.0);
        let mut values: Vec<Value> = Vec::new();
        while rest.len() > 0
            invariant
                values@.len() + rest@.len() == source.len(),
                forall|k: int| 0 <= k < rest@.len() ==> rest@[k] == source[source.len() - 1 - k],
                <Value as FromSpec<T>>::obeys_from_spec() ==> forall|i: int|
                    0 <= i < values@.len() ==> #[trigger] values@[i] == <Value as FromSpec<
                        T,
                    >>::from_spec(source[i]),
            decreases rest@.len(),
        {
            let payload = rest.pop().unwrap();
            values.push(Value::from(payload));
        }
        Value::List(List(values))
    }

    /// Converts a list value to a list of payloads: each element converted. Fails
    /// where the value is no list, and with the failure of the first element that
    /// fails.
    pub fn downcast_list<T>(self) -> (r: Result<List<T>, ParquetError>) where Value: Downcast<T>
        ensures
            match self {
                Value::List(list) => all_downcast_to(
                    list.0@,
                    match r {
                        Ok(payloads) => Ok(payloads.0@),
                        Err(e) => Err(e),
                    },
                ),
                _ => r matches Err(e) && e == mismatch(ValueKind::List, self.kind_of()),
            },
    {
        let list = match self.into_list() {
            Ok(list) => list,
            Err(e) => {
                return Err(e);
            },
        };
        let ghost source = list.0@;
        let mut rest = reversed(list.0);
        let mut payloads: Vec<T> = Vec::new();
        while rest.len() > 0
            invariant
                self is List,
                self->List_0.0@ == source,
                payloads@.len() + rest@.len() == source.len(),
                forall|k: int| 0 <= k < rest@.len() ==> rest@[k] == source[source.len() - 1 - k],
                forall|i: int|
                    0 <= i < payloads@.len() ==> (#[trigger] source[i]).downcasts_to(
                        Ok::<T, ParquetError>(payloads@[i]),
                    ),
            decreases rest@.len(),
        {
            let value = rest.pop().unwrap();
            match value.downcast() {
                Ok(payload) => {
                    payloads.push(payload);
                },
                Err(e) => {
                    proof {
                        assert(value == source[payloads@.len() as int]);
                        assert(first_downcast_to(source, payloads@));
                        assert(source[payloads@.len() as int].downcasts_to(
                            Err::<T, ParquetError>(e),
                        ));
                    }
                    return Err(e);
                },
            }
        }
        Ok(List(payloads))
    }
}

/// A list of payloads that is made a list value and converted back is the list
/// again, element by element, where that holds of each payload: where a payload made
/// a value converts back to itself and to nothing else.
pub proof fn lemma_round_trip_elements<T>(payloads: Seq<T>, values: Seq<Value>, back: Result<
    Seq<T>,
    ParquetError,
>) where Value: From<T> + Downcast<T>
    requires
        values.len() == payloads.len(),
        forall|i: int|
            0 <= i < payloads.len() ==> #[trigger] values[i] == <Value as FromSpec<T>>::from_spec(
                payloads[i],
            ),
        forall|payload: T, r: Result<T, ParquetError>|
            (#[trigger] <Value as FromSpec<T>>::from_spec(payload).downcasts_to(r)) ==> r == Ok::<
                T,
                ParquetError,
            >(payload),
        all_downcast_to(values, back),
    ensures
        back == Ok::<Seq<T>, ParquetError>(payloads),
{
    match back {
        Ok(got) => {
            assert forall|i: int| 0 <= i < payloads.len() implies got[i] == payloads[i] by {
                assert(values[i].downcasts_to(Ok::<T, ParquetError>(got[i])));
            }
            assert(got =~= payloads);
        },
        Err(e) => {
            let before = choose|before: Seq<T>| #[trigger]
                first_downcast_to(values, before) && before.len() < values.len()
                    && values[before.len() as int].downcasts_to(Err::<T, ParquetError>(e));
            let at = before.len() as int;
            assert(values[at] == <Value as FromSpec<T>>::from_spec(payloads[at]));
        },
    }
}

/// Whether no key of `entries` equals an earlier one.
pub open spec fn keys_differ(entries: Seq<(Value, Value)>) -> bool {
    forall|i: int, j: int|
        0 <= i < j < entries.len() ==> !same_value(
            (#[trigger] entries[j]).0@,
            (#[trigger] entries[i]).0@,
        )
}

/// Whether `payloads` are what the conversion of the first of `entries` gives, a
/// key and a value for each of them.
pub open spec fn first_entries_downcast_to<K, V>(
    entries: Seq<(Value, Value)>,
    payloads: Seq<(K, V)>,
) -> bool where Value: Downcast<K> + Downcast<V> {
    payloads.len() <= entries.len() && forall|i: int|
        0 <= i < payloads.len() ==> (#[trigger] entries[i]).0.downcasts_to(
            Ok::<K, ParquetError>(payloads[i].0),
        ) && entries[i].1.downcasts_to(Ok::<V, ParquetError>(payloads[i].1))
}

/// Whether `e` is the failure of converting an entry: that of its key, or that of its
/// value behind a key that converts.
pub open spec fn entry_fails_with<K, V>(entry: (Value, Value), e: ParquetError) -> bool where
    Value: Downcast<K> + Downcast<V>,
 {
    entry.0.downcasts_to(Err::<K, ParquetError>(e)) || (exists|key: K| #[trigger]
        entry.0.downcasts_to(Ok::<K, ParquetError>(key))) && entry.1.downcasts_to(
        Err::<V, ParquetError>(e),
    )
}

/// Whether `r` is what the conversion of every entry of `entries`, first to last and
/// key before value, gives: the payloads, or the first failure.
pub open spec fn entries_downcast_to<K, V>(
    entries: Seq<(Value, Value)>,
    r: Result<Seq<(K, V)>, ParquetError>,
) -> bool where Value: Downcast<K> + Downcast<V> {
    match r {
        Ok(payloads) => payloads.len() == entries.len() && first_entries_downcast_to(
            entries,
            payloads,
        ),
        Err(e) => exists|before: Seq<(K, V)>| #[trigger]
            first_entries_downcast_to(entries, before) && before.len() < entries.len()
                && entry_fails_with::<K, V>(entries[before.len() as int], e),
    }
}

impl Value {
    /// Makes a map value of a map of payloads: each key and each value made a value,
    /// and put into the map first to last, so that of two entries whose keys are equal
    /// as values the later one's value stays.
    pub fn from_map<K, V>(map: Mapping<K, V>) -> (v: Value) where Value: From<K> + From<V>
        ensures
            v is Mapping,
            <Value as FromSpec<K>>::obeys_from_spec() && <Value as FromSpec<V>>::obeys_from_spec()
                ==> exists|made: Seq<(Value, Value)>|
                {
                    &&& made.len() == map.0@.len()
                    &&& forall|i: int|
                        0 <= i < made.len() ==> #[trigger] made[i] == (
                            <Value as FromSpec<K>>::from_spec(map.0@[i].0),
                            <Value as FromSpec<V>>::from_spec(map.0@[i].1),
                        )
                    &&& v->Mapping_0.entries() == put_all(entry_views(made))
                    &&& keys_differ(made) ==> v->Mapping_0.0@ == made
                },
    {
        let ghost source = map.0@;
        let mut rest = reversed(map.0);
        let mut entries: Mapping<Value, Value> = Mapping::new();
        let ghost mut made: Seq<(Value, Value)> = Seq::empty();
        proof {
            assert(entry_views(made) =~= Seq::<(ValueView, ValueView)>::empty());
        }
        while rest.len() > 0
            invariant
                made.len() + rest@.len() == source.len(),
                forall|k: int| 0 <= k < rest@.len() ==> rest@[k] == source[source.len() - 1 - k],
                <Value as FromSpec<K>>::obeys_from_spec() && <Value as FromSpec<
                    V,
                >>::obeys_from_spec() ==> forall|i: int|
                    0 <= i < made.len() ==> #[trigger] made[i] == (
                        <Value as FromSpec<K>>::from_spec(source[i].0),
                        <Value as FromSpec<V>>::from_spec(source[i].1),
                    ),
                entries.entries() == put_all(entry_views(made)),
                keys_differ(made) ==> entries.0@ == made,
            decreases rest@.len(),
        {
            let (key, value) = rest.pop().unwrap();
            let key = Value::from(key);
            let value = Value::from(value);
            proof {
                let longer = made.push((key, value));
                assert(longer.drop_last() =~= made);
                assert(entry_views(longer).drop_last() =~= entry_views(made)) by {
                    lemma_entry_views(longer);
                    lemma_entry_views(made);
                }
                assert(entry_views(longer).last() == (key@, value@)) by {
                    lemma_entry_views(longer);
                }
                if keys_differ(longer) {
                    assert(keys_differ(made)) by {
                        assert forall|i: int, j: int| 0 <= i < j < made.len() implies !same_value(
                            (#[trigger] made[j]).0@,
                            (#[trigger] made[i]).0@,
                        ) by {
                            assert(longer[i] == made[i] && longer[j] == made[j]);
                        }
                    }
                    lemma_entry_views(made);
                    lemma_lookup_none(entry_views(made), key@);
                    assert forall|i: int| 0 <= i < made.len() implies !same_value(
                        key@,
                        #[trigger] entry_views(made)[i].0,
                    ) by {
                        assert(longer[i] == made[i] && longer[made.len() as int] == (key, value));
                    }
                }
                made = longer;
            }
            let _ = entries.insert(key, value);
        }
        Value::Mapping(entries)
    }
}

/// A map that is filled entry by entry: each entry put into the map of the entries
/// before it.
pub open spec fn put_all(entries: Seq<(ValueView, ValueView)>) -> Seq<(ValueView, ValueView)>
    decreases entries.len(),
{
    if entries.len() == 0 {
        Seq::empty()
    } else {
        put(put_all(entries.drop_last()), entries.last().0, entries.last().1)
    }
}

/// A key is not found among entries exactly when it equals no key of theirs.
pub proof fn lemma_lookup_none(entries: Seq<(ValueView, ValueView)>, key: ValueView)
    ensures
        lookup(entries, key) is None <==> forall|i: int|
            0 <= i < entries.len() ==> !same_value(key, #[trigger] entries[i].0),
    decreases entries.len(),
{
    if entries.len() > 0 {
        lemma_lookup_none(entries.drop_last(), key);
        if lookup(entries, key) is None {
            assert forall|i: int| 0 <= i < entries.len() implies !same_value(
                key,
                #[trigger] entries[i].0,
            ) by {
                if i < entries.len() - 1 {
                    assert(entries.drop_last()[i] == entries[i]);
                }
            }
        } else if forall|i: int| 0 <= i < entries.len() ==> !same_value(key, #[trigger] entries[i].0) {
            assert forall|i: int| 0 <= i < entries.drop_last().len() implies !same_value(
                key,
                #[trigger] entries.drop_last()[i].0,
            ) by {
                assert(entries.drop_last()[i] == entries[i]);
            }
            assert(!same_value(key, entries[entries.len() - 1].0));
        }
    }
}

impl Value {
    /// Converts a map value to a map of payloads: each key and each value converted,
    /// first entry to last and key before value. Fails where the value is no map, and
    /// with the first failure of a key or a value.
    pub fn downcast_map<K, V>(self) -> (r: Result<Mapping<K, V>, ParquetError>) where
        Value: Downcast<K> + Downcast<V>,

        ensures
            match self {
                Value::Mapping(map) => entries_downcast_to(
                    map.0@,
                    match r {
                        Ok(payloads) => Ok(payloads.0@),
                        Err(e) => Err(e),
                    },
                ),
                _ => r matches Err(e) && e == mismatch(ValueKind::Mapping, self.kind_of()),
            },
    {
        let map = match self.into_map() {
            Ok(map) => map,
            Err(e) => {
                return Err(e);
            },
        };
        let ghost source = map.0@;
        let mut rest = reversed(map.0);
        let mut payloads: Vec<(K, V)> = Vec::new();
        while rest.len() > 0
            invariant
                self is Mapping,
                self->Mapping_0.0@ == source,
                payloads@.len() + rest@.len() == source.len(),
                forall|k: int| 0 <= k < rest@.len() ==> rest@[k] == source[source.len() - 1 - k],
                first_entries_downcast_to(source, payloads@),
            decreases rest@.len(),
        {
            let (key, value) = rest.pop().unwrap();
            assert((key, value) == source[payloads@.len() as int]);
            let key: K = match key.downcast() {
                Ok(key) => key,
                Err(e) => {
                    proof {
                        assert(entry_fails_with::<K, V>(source[payloads@.len() as int], e));
                    }
                    return Err(e);
                },
            };
            let value: V = match value.downcast() {
                Ok(value) => value,
                Err(e) => {
                    proof {
                        assert(source[payloads@.len() as int].0.downcasts_to(
                            Ok::<K, ParquetError>(key),
                        ));
                        assert(entry_fails_with::<K, V>(source[payloads@.len() as int], e));
                    }
                    return Err(e);
                },
            };
            payloads.push((key, value));
        }
        Ok(Mapping(payloads))
    }
}

/// A map of payloads that is made a map value and converted back is the map again,
/// entry by entry, where no two of its keys are equal as values and where a key or a
/// value made a value converts back to itself and to nothing else.
pub proof fn lemma_round_trip_entries<K, V>(
    payloads: Seq<(K, V)>,
    made: Seq<(Value, Value)>,
    back: Result<Seq<(K, V)>, ParquetError>,
) where Value: From<K> + From<V> + Downcast<K> + Downcast<V>
    requires
        made.len() == payloads.len(),
        forall|i: int|
            0 <= i < made.len() ==> #[trigger] made[i] == (
                <Value as FromSpec<K>>::from_spec(payloads[i].0),
                <Value as FromSpec<V>>::from_spec(payloads[i].1),
            ),
        forall|payload: K, r: Result<K, ParquetError>|
            (#[trigger] <Value as FromSpec<K>>::from_spec(payload).downcasts_to(r)) ==> r == Ok::<
                K,
                ParquetError,
            >(payload),
        forall|payload: V, r: Result<V, ParquetError>|
            (#[trigger] <Value as FromSpec<V>>::from_spec(payload).downcasts_to(r)) ==> r == Ok::<
                V,
                ParquetError,
            >(payload),
        entries_downcast_to(made, back),
    ensures
        back == Ok::<Seq<(K, V)>, ParquetError>(payloads),
{
    match back {
        Ok(got) => {
            assert forall|i: int| 0 <= i < payloads.len() implies got[i] == payloads[i] by {
                assert(made[i].0.downcasts_to(Ok::<K, ParquetError>(got[i].0)));
                assert(made[i].1.downcasts_to(Ok::<V, ParquetError>(got[i].1)));
            }
            assert(got =~= payloads);
        },
        Err(e) => {
            let before = choose|before: Seq<(K, V)>| #[trigger]
                first_entries_downcast_to(made, before) && before.len() < made.len()
                    && entry_fails_with::<K, V>(made[before.len() as int], e);
            let at = before.len() as int;
            assert(made[at] == (
                <Value as FromSpec<K>>::from_spec(payloads[at].0),
                <Value as FromSpec<V>>::from_spec(payloads[at].1),
            ));
        },
    }
}

/// The value that a payload is made.
pub open spec fn made_of<T>(payload: T) -> Value where Value: From<T> {
    <Value as FromSpec<T>>::from_spec(payload)
}

impl Value {
    /// Whether the value is an optional value.
    pub open spec fn is_option_value(self) -> bool {
        self is Option
    }
}

/// A map that is filled with entries of which no key equals an earlier one holds
/// the entries as they came.
pub proof fn lemma_put_all_distinct(made: Seq<(Value, Value)>)
    requires
        keys_differ(made),
    ensures
        put_all(entry_views(made)) == entry_views(made),
    decreases made.len(),
{
    lemma_entry_views(made);
    if made.len() > 0 {
        let before = made.drop_last();
        assert(keys_differ(before)) by {
            assert forall|i: int, j: int| 0 <= i < j < before.len() implies !same_value(
                (#[trigger] before[j]).0@,
                (#[trigger] before[i]).0@,
            ) by {
                assert(before[i] == made[i] && before[j] == made[j]);
            }
        }
        lemma_put_all_distinct(before);
        lemma_entry_views(before);
        assert(entry_views(made).drop_last() =~= entry_views(before));
        lemma_lookup_none(entry_views(before), made.last().0@);
        assert forall|i: int| 0 <= i < before.len() implies !same_value(
            made.last().0@,
            #[trigger] entry_views(before)[i].0,
        ) by {
            assert(before[i] == made[i]);
            assert(made[made.len() - 1] == made.last());
        }
        assert(entry_views(made) =~= entry_views(before).push(
            (made.last().0@, made.last().1@),
        ));
    } else {
        assert(entry_views(made) =~= Seq::<(ValueView, ValueView)>::empty());
    }
}

impl Value {
    /// Makes an optional value of what may be a payload: the payload made a value.
    pub fn from_some<T>(value: Option<T>) -> (v: Value) where Value: From<T>
        requires
            value matches Some(payload) ==> <Value as FromSpec<T>>::obeys_from_spec()
                && !made_of(payload).is_option_value(),
        ensures
            match value {
                Some(payload) => v == option_value(
                    Some(<Value as FromSpec<T>>::from_spec(payload)),
                ),
                None => v == option_value(None),
            },
    {
        match value {
            Some(payload) => Value::from_option(Some(Value::from(payload))),
            None => Value::from_option(None),
        }
    }

    /// Converts an optional value to what may be a payload: the present value
    /// converted. Fails where the value is no optional value, and where the present
    /// value fails to convert.
    pub fn downcast_some<T>(self) -> (r: Result<Option<T>, ParquetError>) where Value: Downcast<T>
        ensures
            match self {
                Value::Option(Some(inner)) => match r {
                    Ok(Some(payload)) => inner.downcasts_to(Ok::<T, ParquetError>(payload)),
                    Ok(None) => false,
                    Err(e) => inner.downcasts_to(Err::<T, ParquetError>(e)),
                },
                Value::Option(None) => r matches Ok(None),
                _ => r matches Err(e) && e == mismatch(ValueKind::Option, self.kind_of()),
            },
    {
        match self.into_option() {
            Ok(Some(inner)) => match inner.downcast() {
                Ok(payload) => Ok(Some(payload)),
                Err(e) => Err(e),
            },
            Ok(None) => Ok(None),
            Err(e) => Err(e),
        }
    }
}

} // verus!
