//! The values that a reader produces.

pub mod access;
pub mod boxed;
pub mod convert;
pub mod equal;
pub mod group;
pub mod hashing;
pub mod list;
pub mod map;
pub mod shapes;
pub mod value;

use vstd::prelude::*;

verus! {

/// A 32-bit floating point number, held by its bits in the interchange format.
#[derive(Clone, Copy, Debug)]
pub struct Float32 {
    pub bits: u32,
}

/// A 64-bit floating point number, held by its bits in the interchange format.
#[derive(Clone, Copy, Debug)]
pub struct Float64 {
    pub bits: u64,
}

/// A date without a time of day: the number of days since 1 January 1970.
#[derive(Clone, Copy, Debug, PartialEq, Eq, Structural)]
pub struct Date(pub i32);

/// A time of day: the number of microseconds since midnight.
#[derive(Clone, Copy, Debug, PartialEq, Eq, Structural)]
pub struct Time(pub u64);

/// A moment in time, as the column holds it: a Julian day number with the
/// nanoseconds since that day began, or the milliseconds or microseconds since
/// 1 January 1970.
#[derive(Clone, Copy, Debug, PartialEq, Eq, Structural)]
pub enum Timestamp {
    Int96 { julian_day: u32, nanos_of_day: u64 },
    Millis(i64),
    Micros(i64),
}

/// A decimal number: the unscaled value, as an integer or as its bytes in two's
/// complement, most significant byte first; the number of digits; and the number of
/// them after the point.
#[derive(Clone, Debug)]
pub enum Decimal {
    Int32 { value: i32, precision: u32, scale: u32 },
    Int64 { value: i64, precision: u32, scale: u32 },
    Bytes { value: Vec<u8>, precision: u32, scale: u32 },
}

/// What a [`Decimal`] holds, with bytes as a sequence.
pub enum DecimalView {
    Int32 { value: i32, precision: u32, scale: u32 },
    Int64 { value: i64, precision: u32, scale: u32 },
    Bytes { value: Seq<u8>, precision: u32, scale: u32 },
}

impl View for Decimal {
    type V = DecimalView;

    open spec fn view(&self) -> DecimalView {
        match *self {
            Decimal::Int32 { value, precision, scale } => DecimalView::Int32 {
                value,
                precision,
                scale,
            },
            Decimal::Int64 { value, precision, scale } => DecimalView::Int64 {
                value,
                precision,
                scale,
            },
            Decimal::Bytes { value, precision, scale } => DecimalView::Bytes {
                value: value@,
                precision,
                scale,
            },
        }
    }
}

/// A BSON document, by its bytes.
#[derive(Clone, Debug)]
pub struct Bson(pub Vec<u8>);

/// A JSON text.
#[derive(Clone, Debug)]
pub struct Json(pub String);

/// The name of a value of an enumeration.
#[derive(Clone, Debug)]
pub struct Enum(pub String);

} // verus!
