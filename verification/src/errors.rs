//! The failures that schema inference, value access and column reading report.

use crate::basic::LogicalType;
use crate::text::{joined, owned};
use vstd::prelude::*;

verus! {

/// The variant of a dynamic value, without its payload.
#[derive(Clone, Copy, Debug, PartialEq, Eq, Structural)]
pub enum ValueKind {
    Bool,
    U8,
    I8,
    U16,
    I16,
    U32,
    I32,
    U64,
    I64,
    F32,
    F64,
    Date,
    Time,
    Timestamp,
    Decimal,
    ByteArray,
    Bson,
    String,
    Json,
    Enum,
    List,
    Mapping,
    Group,
    Option,
}

/// A failure of the library.
#[derive(Clone, Debug)]
pub enum ParquetError {
    /// Schema inference found no shape for the node named `context`.
    ClassificationFailed { context: String },
    /// The node carries an annotation that has no logical schema.
    UnsupportedAnnotation { name: LogicalType },
    /// A group was asked to be a list and does not have the shape of one.
    MalformedListWrapper,
    /// A group was asked to be a map and does not have the shape of one.
    MalformedMapWrapper,
    /// A value of kind `actual_summary` was accessed as `expected`.
    TypeMismatch { expected: ValueKind, actual_summary: ValueKind },
    /// A column decoder failed; `inner` is its message.
    DecoderError { inner: String },
}

/// What a [`ParquetError`] says, with strings as sequences of characters.
pub enum ErrorView {
    ClassificationFailed { context: Seq<char> },
    UnsupportedAnnotation { name: LogicalType },
    MalformedListWrapper,
    MalformedMapWrapper,
    TypeMismatch { expected: ValueKind, actual_summary: ValueKind },
    DecoderError { inner: Seq<char> },
}

impl View for ParquetError {
    type V = ErrorView;

    open spec fn view(&self) -> ErrorView {
        match *self {
            ParquetError::ClassificationFailed { context } => ErrorView::ClassificationFailed {
                context: context@,
            },
            ParquetError::UnsupportedAnnotation { name } => ErrorView::UnsupportedAnnotation {
                name,
            },
            ParquetError::MalformedListWrapper => ErrorView::MalformedListWrapper,
            ParquetError::MalformedMapWrapper => ErrorView::MalformedMapWrapper,
            ParquetError::TypeMismatch { expected, actual_summary } => ErrorView::TypeMismatch {
                expected,
                actual_summary,
            },
            ParquetError::DecoderError { inner } => ErrorView::DecoderError { inner: inner@ },
        }
    }
}

impl ValueKind {
    /// The name of the variant in messages.
    pub open spec fn name(self) -> Seq<char> {
        match self {
            ValueKind::Bool => "bool"@,
            ValueKind::U8 => "u8"@,
            ValueKind::I8 => "i8"@,
            ValueKind::U16 => "u16"@,
            ValueKind::I16 => "i16"@,
            ValueKind::U32 => "u32"@,
            ValueKind::I32 => "i32"@,
            ValueKind::U64 => "u64"@,
            ValueKind::I64 => "i64"@,
            ValueKind::F32 => "f32"@,
            ValueKind::F64 => "f64"@,
            ValueKind::Date => "date"@,
            ValueKind::Time => "time"@,
            ValueKind::Timestamp => "timestamp"@,
            ValueKind::Decimal => "decimal"@,
            ValueKind::ByteArray => "byte_array"@,
            ValueKind::Bson => "bson"@,
            ValueKind::String => "string"@,
            ValueKind::Json => "json"@,
            ValueKind::Enum => "enum"@,
            ValueKind::List => "list"@,
            ValueKind::Mapping => "map"@,
            ValueKind::Group => "group"@,
            ValueKind::Option => "option"@,
        }
    }

    /// Returns the name of the variant in messages.
    pub fn as_str(&self) -> (s: &'static str)
        ensures
            s@ == self.name(),
    {
        match self {
            ValueKind::Bool => "bool",
            ValueKind::U8 => "u8",
            ValueKind::I8 => "i8",
            ValueKind::U16 => "u16",
            ValueKind::I16 => "i16",
            ValueKind::U32 => "u32",
            ValueKind::I32 => "i32",
            ValueKind::U64 => "u64",
            ValueKind::I64 => "i64",
            ValueKind::F32 => "f32",
            ValueKind::F64 => "f64",
            ValueKind::Date => "date",
            ValueKind::Time => "time",
            ValueKind::Timestamp => "timestamp",
            ValueKind::Decimal => "decimal",
            ValueKind::ByteArray => "byte_array",
            ValueKind::Bson => "bson",
            ValueKind::String => "string",
            ValueKind::Json => "json",
            ValueKind::Enum => "enum",
            ValueKind::List => "list",
            ValueKind::Mapping => "map",
            ValueKind::Group => "group",
            ValueKind::Option => "option",
        }
    }
}

/// What a failure says in words.
pub open spec fn message_of(e: ErrorView) -> Seq<char> {
    match e {
        ErrorView::ClassificationFailed { context } => "Can't parse value "@ + context,
        ErrorView::UnsupportedAnnotation { name } => name.name()
            + " logical type not yet implemented"@,
        ErrorView::MalformedListWrapper => "Couldn't parse List<T>"@,
        ErrorView::MalformedMapWrapper => "Couldn't parse Map<K,V>"@,
        ErrorView::TypeMismatch { expected, actual_summary } => "Cannot access "@
            + actual_summary.name() + " as "@ + expected.name(),
        ErrorView::DecoderError { inner } => inner,
    }
}

impl ParquetError {
    /// Returns what the failure says in words.
    pub fn message(&self) -> (text: String)
        ensures
            text@ == message_of(self@),
    {
        match self {
            ParquetError::ClassificationFailed { context } => joined(
                "Can't parse value ",
                context.as_str(),
            ),
            ParquetError::UnsupportedAnnotation { name } => joined(
                name.as_str(),
                " logical type not yet implemented",
            ),
            ParquetError::MalformedListWrapper => owned("Couldn't parse List<T>"),
            ParquetError::MalformedMapWrapper => owned("Couldn't parse Map<K,V>"),
            ParquetError::TypeMismatch { expected, actual_summary } => {
                let mut text = joined("Cannot access ", actual_summary.as_str());
                text.append(" as ");
                text.append(expected.as_str());
                text
            },
            ParquetError::DecoderError { inner } => inner.clone(),
        }
    }
}

} // verus!
