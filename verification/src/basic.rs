//! The enumerations that annotate a node of the file's type tree.

use vstd::prelude::*;

verus! {

/// How often a field occurs in its parent.
#[derive(Clone, Copy, Debug, PartialEq, Eq, Structural)]
pub enum Repetition {
    /// Exactly once.
    Required,
    /// Zero times or once.
    Optional,
    /// Any number of times.
    Repeated,
}

/// The physical type of a primitive column.
#[derive(Clone, Copy, Debug, PartialEq, Eq, Structural)]
pub enum PhysicalType {
    Boolean,
    Int32,
    Int64,
    Int96,
    Float,
    Double,
    ByteArray,
    FixedLenByteArray,
}

/// The semantic annotation layered over a physical type or a group.
#[derive(Clone, Copy, Debug, PartialEq, Eq, Structural)]
pub enum LogicalType {
    Unannotated,
    Utf8,
    MapAnnotated,
    MapKeyValue,
    List,
    Enum,
    Decimal,
    Date,
    TimeMillis,
    TimeMicros,
    TimestampMillis,
    TimestampMicros,
    Uint8,
    Uint16,
    Uint32,
    Uint64,
    Int8,
    Int16,
    Int32,
    Int64,
    Json,
    Bson,
    Interval,
}

impl Repetition {
    /// The keyword that stands for this repetition in the textual schema.
    pub open spec fn keyword(self) -> Seq<char> {
        match self {
            Repetition::Required => "required"@,
            Repetition::Optional => "optional"@,
            Repetition::Repeated => "repeated"@,
        }
    }

    /// Returns the keyword of this repetition.
    pub fn as_str(&self) -> (s: &'static str)
        ensures
            s@ == self.keyword(),
    {
        match self {
            Repetition::Required => "required",
            Repetition::Optional => "optional",
            Repetition::Repeated => "repeated",
        }
    }
}

impl LogicalType {
    /// The name under which the textual schema shows this annotation.
    pub open spec fn name(self) -> Seq<char> {
        match self {
            LogicalType::Unannotated => "NONE"@,
            LogicalType::Utf8 => "UTF8"@,
            LogicalType::MapAnnotated => "MAP"@,
            LogicalType::MapKeyValue => "MAP_KEY_VALUE"@,
            LogicalType::List => "LIST"@,
            LogicalType::Enum => "ENUM"@,
            LogicalType::Decimal => "DECIMAL"@,
            LogicalType::Date => "DATE"@,
            LogicalType::TimeMillis => "TIME_MILLIS"@,
            LogicalType::TimeMicros => "TIME_MICROS"@,
            LogicalType::TimestampMillis => "TIMESTAMP_MILLIS"@,
            LogicalType::TimestampMicros => "TIMESTAMP_MICROS"@,
            LogicalType::Uint8 => "UINT_8"@,
            LogicalType::Uint16 => "UINT_16"@,
            LogicalType::Uint32 => "UINT_32"@,
            LogicalType::Uint64 => "UINT_64"@,
            LogicalType::Int8 => "INT_8"@,
            LogicalType::Int16 => "INT_16"@,
            LogicalType::Int32 => "INT_32"@,
            LogicalType::Int64 => "INT_64"@,
            LogicalType::Json => "JSON"@,
            LogicalType::Bson => "BSON"@,
            LogicalType::Interval => "INTERVAL"@,
        }
    }

    /// Returns the name of this annotation.
    pub fn as_str(&self) -> (s: &'static str)
        ensures
            s@ == self.name(),
    {
        match self {
            LogicalType::Unannotated => "NONE",
            LogicalType::Utf8 => "UTF8",
            LogicalType::MapAnnotated => "MAP",
            LogicalType::MapKeyValue => "MAP_KEY_VALUE",
            LogicalType::List => "LIST",
            LogicalType::Enum => "ENUM",
            LogicalType::Decimal => "DECIMAL",
            LogicalType::Date => "DATE",
            LogicalType::TimeMillis => "TIME_MILLIS",
            LogicalType::TimeMicros => "TIME_MICROS",
            LogicalType::TimestampMillis => "TIMESTAMP_MILLIS",
            LogicalType::TimestampMicros => "TIMESTAMP_MICROS",
            LogicalType::Uint8 => "UINT_8",
            LogicalType::Uint16 => "UINT_16",
            LogicalType::Uint32 => "UINT_32",
            LogicalType::Uint64 => "UINT_64",
            LogicalType::Int8 => "INT_8",
            LogicalType::Int16 => "INT_16",
            LogicalType::Int32 => "INT_32",
            LogicalType::Int64 => "INT_64",
            LogicalType::Json => "JSON",
            LogicalType::Bson => "BSON",
            LogicalType::Interval => "INTERVAL",
        }
    }
}

} // verus!
