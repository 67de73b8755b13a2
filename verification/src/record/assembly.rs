//! Evaluation of reader trees: what value a reader assembles from the columns, and
//! where it leaves them. A reader looks at the levels of the next slot of its first
//! leaf to decide whether a value is present and whether a list goes on.

use crate::errors::{ErrorView, ParquetError};
use crate::record::column::{
    absent, decoder_error, exhausted, handle, unfit, ColumnSet, ColumnValue, ColumnValueView,
    Columns,
};
use crate::record::reader::{
    is_primitive, lemma_named_readers, lemma_readers_wf, named_readers, share_index, GroupReader,
    KeyValueReader, ReaderView, RepeatedReader, ValueReader,
};
use crate::record::schemas::{
    DecimalSchema, SchemaView, TimeSchema, TimestampSchema, ValueSchema,
};
use crate::record::types::equal::lookup;
use crate::record::types::group::Group;
use crate::record::types::list::List;
use crate::record::types::map::Mapping;
use crate::record::types::value::{
    entries_wf, lemma_value_views_push, value_views, values_wf, Value, ValueView,
};
use crate::record::types::{Bson, Date, Decimal, DecimalView, Enum, Json, Time, Timestamp};
use vstd::prelude::*;
use vstd::utf8::{decode_utf8, valid_utf8};

verus! {

/// Whether bytes have the length that a schema declares, where it declares one.
pub open spec fn fits_length(length: Option<u32>, bytes: Seq<u8>) -> bool {
    length matches Some(n) ==> bytes.len() == n
}

/// The text that bytes of a declared length encode.
pub open spec fn text_of(length: Option<u32>, bytes: Seq<u8>) -> Option<Seq<char>> {
    if fits_length(length, bytes) && valid_utf8(bytes) {
        Some(decode_utf8(bytes))
    } else {
        None
    }
}

/// The value of a schema that a column's value stands for. Integers narrower than
/// the column's are cut to their width, and unsigned ones are the column's bits read
/// as unsigned. A time in milliseconds is given in microseconds. A value that is
/// not of the column type of the schema, a negative time, bytes of another length
/// than declared and a text that is not encoded properly do not fit.
pub open spec fn convert(schema: SchemaView, value: ColumnValueView) -> Result<
    ValueView,
    ErrorView,
> {
    match (schema, value) {
        (SchemaView::Bool, ColumnValueView::Boolean(v)) => Ok(ValueView::Bool(v)),
        (SchemaView::U8, ColumnValueView::Int32(v)) => Ok(ValueView::U8(v as u8)),
        (SchemaView::I8, ColumnValueView::Int32(v)) => Ok(ValueView::I8(v as i8)),
        (SchemaView::U16, ColumnValueView::Int32(v)) => Ok(ValueView::U16(v as u16)),
        (SchemaView::I16, ColumnValueView::Int32(v)) => Ok(ValueView::I16(v as i16)),
        (SchemaView::U32, ColumnValueView::Int32(v)) => Ok(ValueView::U32(v as u32)),
        (SchemaView::I32, ColumnValueView::Int32(v)) => Ok(ValueView::I32(v)),
        (SchemaView::U64, ColumnValueView::Int64(v)) => Ok(ValueView::U64(v as u64)),
        (SchemaView::I64, ColumnValueView::Int64(v)) => Ok(ValueView::I64(v)),
        (SchemaView::F32, ColumnValueView::Float(v)) => Ok(ValueView::F32(v)),
        (SchemaView::F64, ColumnValueView::Double(v)) => Ok(ValueView::F64(v)),
        (SchemaView::Date, ColumnValueView::Int32(v)) => Ok(ValueView::Date(Date(v))),
        (SchemaView::Time(TimeSchema::Millis), ColumnValueView::Int32(v)) => if v >= 0 {
            Ok(ValueView::Time(Time((v * 1000) as u64)))
        } else {
            Err(unfit())
        },
        (SchemaView::Time(TimeSchema::Micros), ColumnValueView::Int64(v)) => if v >= 0 {
            Ok(ValueView::Time(Time(v as u64)))
        } else {
            Err(unfit())
        },
        (
            SchemaView::Timestamp(TimestampSchema::Int96),
            ColumnValueView::Int96 { julian_day, nanos_of_day },
        ) => Ok(ValueView::Timestamp(Timestamp::Int96 { julian_day, nanos_of_day })),
        (SchemaView::Timestamp(TimestampSchema::Millis), ColumnValueView::Int64(v)) => Ok(
            ValueView::Timestamp(Timestamp::Millis(v)),
        ),
        (SchemaView::Timestamp(TimestampSchema::Micros), ColumnValueView::Int64(v)) => Ok(
            ValueView::Timestamp(Timestamp::Micros(v)),
        ),
        (
            SchemaView::Decimal(DecimalSchema::Int32 { precision, scale }),
            ColumnValueView::Int32(v),
        ) => Ok(ValueView::Decimal(DecimalView::Int32 { value: v, precision, scale })),
        (
            SchemaView::Decimal(DecimalSchema::Int64 { precision, scale }),
            ColumnValueView::Int64(v),
        ) => Ok(ValueView::Decimal(DecimalView::Int64 { value: v, precision, scale })),
        (
            SchemaView::Decimal(DecimalSchema::Array { byte_array_schema, precision, scale }),
            ColumnValueView::ByteArray(v),
        ) => if fits_length(byte_array_schema.0, v) {
            Ok(ValueView::Decimal(DecimalView::Bytes { value: v, precision, scale }))
        } else {
            Err(unfit())
        },
        (SchemaView::ByteArray(length), ColumnValueView::ByteArray(v)) => if fits_length(
            length,
            v,
        ) {
            Ok(ValueView::ByteArray(v))
        } else {
            Err(unfit())
        },
        (SchemaView::Bson(length), ColumnValueView::ByteArray(v)) => if fits_length(length, v) {
            Ok(ValueView::Bson(v))
        } else {
            Err(unfit())
        },
        (SchemaView::String(length), ColumnValueView::ByteArray(v)) => match text_of(length, v) {
            Some(text) => Ok(ValueView::String(text)),
            None => Err(unfit()),
        },
        (SchemaView::Json(length), ColumnValueView::ByteArray(v)) => match text_of(length, v) {
            Some(text) => Ok(ValueView::Json(text)),
            None => Err(unfit()),
        },
        (SchemaView::Enum(length), ColumnValueView::ByteArray(v)) => match text_of(length, v) {
            Some(text) => Ok(ValueView::Enum(text)),
            None => Err(unfit()),
        },
        _ => Err(unfit()),
    }
}

/// The column of the first leaf of a reader tree, where the tree has a leaf and the
/// leaf has a column.
pub open spec fn first_column(reader: ReaderView) -> Option<int>
    decreases reader,
{
    match reader {
        ReaderView::Primitive { column, .. } => column,
        ReaderView::List { element, .. } => first_column(*element),
        ReaderView::Mapping { keys, .. } => first_column(*keys),
        ReaderView::Group { fields, .. } => if fields.len() == 0 {
            None
        } else {
            first_column(fields[0].1)
        },
        ReaderView::Option { inner, .. } => first_column(*inner),
        ReaderView::Boxed(inner) => first_column(*inner),
    }
}

/// The columns after every leaf of a reader has passed one slot over, and the
/// failure of the first leaf that has none left; the leaves after that one stay
/// where they are.
pub open spec fn advance(reader: ReaderView, columns: Columns) -> (Option<ErrorView>, Columns)
    decreases reader,
{
    match reader {
        ReaderView::Primitive { column, .. } => if columns.has_next(column) {
            (None, columns.advanced(column))
        } else {
            (Some(exhausted()), columns)
        },
        ReaderView::List { element, .. } => advance(*element, columns),
        ReaderView::Mapping { keys, values, .. } => match advance(*keys, columns) {
            (None, after) => advance(*values, after),
            failed => failed,
        },
        ReaderView::Group { fields, .. } => advance_fields(fields, columns),
        ReaderView::Option { inner, .. } => advance(*inner, columns),
        ReaderView::Boxed(inner) => advance(*inner, columns),
    }
}

/// [`advance`], of the readers of a group's fields, first to last.
pub open spec fn advance_fields(fields: Seq<(Seq<char>, ReaderView)>, columns: Columns) -> (
    Option<ErrorView>,
    Columns,
)
    decreases fields,
{
    if fields.len() == 0 {
        (None, columns)
    } else {
        match advance_fields(fields.drop_last(), columns) {
            (None, after) => advance(fields.last().1, after),
            failed => failed,
        }
    }
}

/// A map with a value put under a key: the value replaces that of the first entry
/// with an equal key, or the entry goes to the end where no key is equal.
pub open spec fn put(
    entries: Seq<(ValueView, ValueView)>,
    key: ValueView,
    value: ValueView,
) -> Seq<(ValueView, ValueView)> {
    match lookup(entries, key) {
        Some(at) => entries.update(at, (entries[at].0, value)),
        None => entries.push((key, value)),
    }
}

/// The index of a group that has the fields of the given readers: each name with
/// its position.
pub open spec fn ordinals(fields: Seq<(Seq<char>, ReaderView)>) -> Seq<(Seq<char>, usize)> {
    Seq::new(fields.len(), |i: int| (fields[i].0, i as usize))
}

/// The values of a group's fields, read first to last, and the columns after them;
/// the failure of the first field that fails, and the columns as that field left
/// them.
pub open spec fn read_fields(fields: Seq<(Seq<char>, ReaderView)>, columns: Columns) -> (
    Result<Seq<ValueView>, ErrorView>,
    Columns,
)
    decreases fields, 0nat, 0nat,
{
    if fields.len() == 0 {
        (Ok(Seq::empty()), columns)
    } else {
        match read_fields(fields.drop_last(), columns) {
            (Ok(values), after) => match read(fields.last().1, after) {
                (Ok(value), end) => (Ok(values.push(value)), end),
                (Err(e), end) => (Err(e), end),
            },
            (Err(e), after) => (Err(e), after),
        }
    }
}

/// The elements of a list behind those already read, `so_far`. An element is present
/// where the next definition level lies above the list's own; otherwise the slot is
/// passed over and the list ends. Behind an element the list goes on while a slot is
/// left whose repetition level lies above the list's own, and ends at once where
/// reading the element consumed nothing of the element's first column.
pub open spec fn read_elements(list: ReaderView, columns: Columns, so_far: Seq<ValueView>) -> (
    Result<Seq<ValueView>, ErrorView>,
    Columns,
)
    decreases list, 0nat, columns.left(first_column(list)),
{
    match list {
        ReaderView::List { element, def_level, rep_level } => {
            let first = first_column(*element);
            if columns.def_level(first) > def_level {
                match read(*element, columns) {
                    (Ok(value), after) => if after.has_next(first) && after.rep_level(first)
                        > rep_level && after.left(first) < columns.left(first) {
                        read_elements(list, after, so_far.push(value))
                    } else {
                        (Ok(so_far.push(value)), after)
                    },
                    (Err(e), after) => (Err(e), after),
                }
            } else {
                match advance(*element, columns) {
                    (None, after) => (Ok(so_far), after),
                    (Some(e), after) => (Err(e), after),
                }
            }
        },
        _ => (Ok(so_far), columns),
    }
}

/// The entries of a map behind those already read, `so_far`: as [`read_elements`],
/// with a key and a value read for each entry. An entry whose key is equal to an
/// earlier one replaces the earlier one's value.
pub open spec fn read_entries(
    map: ReaderView,
    columns: Columns,
    so_far: Seq<(ValueView, ValueView)>,
) -> (Result<Seq<(ValueView, ValueView)>, ErrorView>, Columns)
    decreases map, 0nat, columns.left(first_column(map)),
{
    match map {
        ReaderView::Mapping { keys, values, def_level, rep_level } => {
            let first = first_column(*keys);
            if columns.def_level(first) > def_level {
                match read(*keys, columns) {
                    (Ok(key), middle) => match read(*values, middle) {
                        (Ok(value), after) => if after.has_next(first) && after.rep_level(first)
                            > rep_level && after.left(first) < columns.left(first) {
                            read_entries(map, after, put(so_far, key, value))
                        } else {
                            (Ok(put(so_far, key, value)), after)
                        },
                        (Err(e), after) => (Err(e), after),
                    },
                    (Err(e), middle) => (Err(e), middle),
                }
            } else {
                match advance(map, columns) {
                    (None, after) => (Ok(so_far), after),
                    (Some(e), after) => (Err(e), after),
                }
            }
        },
        _ => (Ok(so_far), columns),
    }
}

/// The value that a reader assembles from the columns, and the columns as it leaves
/// them. A leaf takes the next value of its column. An optional value is present
/// where the next definition level lies above the option's own; otherwise the slot
/// is passed over. A group is its fields, read first to last.
pub open spec fn read(reader: ReaderView, columns: Columns) -> (
    Result<ValueView, ErrorView>,
    Columns,
)
    decreases reader, 1nat, 0nat,
{
    match reader {
        ReaderView::Primitive { schema, column, .. } => if !columns.has_next(column) {
            (Err(exhausted()), columns)
        } else {
            match columns.next(column).value {
                Some(value) => (convert(schema, value), columns.advanced(column)),
                None => (Err(absent()), columns.advanced(column)),
            }
        },
        ReaderView::List { .. } => match read_elements(reader, columns, Seq::empty()) {
            (Ok(elements), after) => (Ok(ValueView::List(elements)), after),
            (Err(e), after) => (Err(e), after),
        },
        ReaderView::Mapping { .. } => match read_entries(reader, columns, Seq::empty()) {
            (Ok(entries), after) => (Ok(ValueView::Mapping(entries)), after),
            (Err(e), after) => (Err(e), after),
        },
        ReaderView::Group { fields, .. } => match read_fields(fields, columns) {
            (Ok(values), after) => (
                Ok(ValueView::Group { fields: values, index: ordinals(fields) }),
                after,
            ),
            (Err(e), after) => (Err(e), after),
        },
        ReaderView::Option { inner, def_level, .. } => if columns.def_level(first_column(*inner))
            > def_level {
            match read(*inner, columns) {
                (Ok(value), after) => (Ok(ValueView::Option(Some(Box::new(value)))), after),
                (Err(e), after) => (Err(e), after),
            }
        } else {
            match advance(*inner, columns) {
                (None, after) => (Ok(ValueView::Option(None)), after),
                (Some(e), after) => (Err(e), after),
            }
        },
        ReaderView::Boxed(inner) => read(*inner, columns),
    }
}

/// `String::from_utf8`: the text that the bytes encode, where they encode one.
#[verifier::external_body]
pub(crate) fn string_from_utf8(bytes: Vec<u8>) -> (text: Option<String>)
    ensures
        match text {
            Some(s) => valid_utf8(bytes@) && s@ == decode_utf8(bytes@),
            None => !valid_utf8(bytes@),
        },
{
    String::from_utf8(bytes).ok()
}

/// Whether bytes have the length that a schema declares, where it declares one.
fn has_length(length: Option<u32>, bytes: &Vec<u8>) -> (fits: bool)
    ensures
        fits == fits_length(length, bytes@),
{
    match length {
        Some(n) => bytes.len() == n as usize,
        None => true,
    }
}

/// Returns the text that bytes of a declared length encode.
fn text_from(length: Option<u32>, bytes: Vec<u8>) -> (text: Option<String>)
    ensures
        match text {
            Some(s) => text_of(length, bytes@) == Some(s@),
            None => text_of(length, bytes@) is None,
        },
{
    if has_length(length, &bytes) {
        string_from_utf8(bytes)
    } else {
        None
    }
}

/// The failure of a value that does not fit its schema.
fn unfit_error<T>() -> (r: Result<T, ParquetError>)
    ensures
        r matches Err(e) && e@ == unfit(),
{
    Err(decoder_error("the column's value does not fit the schema"))
}

/// Returns the value of a primitive schema that a column's value stands for.
pub fn convert_value(schema: &ValueSchema, value: ColumnValue) -> (r: Result<Value, ParquetError>)
    requires
        is_primitive(schema@),
    ensures
        match r {
            Ok(v) => v.wf() && !(v is Option) && convert(schema@, value@) == Ok::<
                ValueView,
                ErrorView,
            >(v@),
            Err(e) => convert(schema@, value@) == Err::<ValueView, ErrorView>(e@),
        },
{
    match schema {
        ValueSchema::Bool(_) => match value {
            ColumnValue::Boolean(v) => Ok(Value::Bool(v)),
            _ => unfit_error(),
        },
        ValueSchema::U8(_) => match value {
            ColumnValue::Int32(v) => Ok(Value::U8(v as u8)),
            _ => unfit_error(),
        },
        ValueSchema::I8(_) => match value {
            ColumnValue::Int32(v) => Ok(Value::I8(v as i8)),
            _ => unfit_error(),
        },
        ValueSchema::U16(_) => match value {
            ColumnValue::Int32(v) => Ok(Value::U16(v as u16)),
            _ => unfit_error(),
        },
        ValueSchema::I16(_) => match value {
            ColumnValue::Int32(v) => Ok(Value::I16(v as i16)),
            _ => unfit_error(),
        },
        ValueSchema::U32(_) => match value {
            ColumnValue::Int32(v) => Ok(Value::U32(v as u32)),
            _ => unfit_error(),
        },
        ValueSchema::I32(_) => match value {
            ColumnValue::Int32(v) => Ok(Value::I32(v)),
            _ => unfit_error(),
        },
        ValueSchema::U64(_) => match value {
            ColumnValue::Int64(v) => Ok(Value::U64(v as u64)),
            _ => unfit_error(),
        },
        ValueSchema::I64(_) => match value {
            ColumnValue::Int64(v) => Ok(Value::I64(v)),
            _ => unfit_error(),
        },
        ValueSchema::F32(_) => match value {
            ColumnValue::Float(v) => Ok(Value::F32(v)),
            _ => unfit_error(),
        },
        ValueSchema::F64(_) => match value {
            ColumnValue::Double(v) => Ok(Value::F64(v)),
            _ => unfit_error(),
        },
        ValueSchema::Date(_) => match value {
            ColumnValue::Int32(v) => Ok(Value::Date(Date(v))),
            _ => unfit_error(),
        },
        ValueSchema::Time(TimeSchema::Millis) => match value {
            ColumnValue::Int32(v) => if v >= 0 {
                Ok(Value::Time(Time(v as u64 * 1000)))
            } else {
                unfit_error()
            },
            _ => unfit_error(),
        },
        ValueSchema::Time(TimeSchema::Micros) => match value {
            ColumnValue::Int64(v) => if v >= 0 {
                Ok(Value::Time(Time(v as u64)))
            } else {
                unfit_error()
            },
            _ => unfit_error(),
        },
        ValueSchema::Timestamp(TimestampSchema::Int96) => match value {
            ColumnValue::Int96 { julian_day, nanos_of_day } => Ok(
                Value::Timestamp(Timestamp::Int96 { julian_day, nanos_of_day }),
            ),
            _ => unfit_error(),
        },
        ValueSchema::Timestamp(TimestampSchema::Millis) => match value {
            ColumnValue::Int64(v) => Ok(Value::Timestamp(Timestamp::Millis(v))),
            _ => unfit_error(),
        },
        ValueSchema::Timestamp(TimestampSchema::Micros) => match value {
            ColumnValue::Int64(v) => Ok(Value::Timestamp(Timestamp::Micros(v))),
            _ => unfit_error(),
        },
        ValueSchema::Decimal(DecimalSchema::Int32 { precision, scale }) => match value {
            ColumnValue::Int32(v) => Ok(
                Value::Decimal(Decimal::Int32 { value: v, precision: *precision, scale: *scale }),
            ),
            _ => unfit_error(),
        },
        ValueSchema::Decimal(DecimalSchema::Int64 { precision, scale }) => match value {
            ColumnValue::Int64(v) => Ok(
                Value::Decimal(Decimal::Int64 { value: v, precision: *precision, scale: *scale }),
            ),
            _ => unfit_error(),
        },
        ValueSchema::Decimal(
            DecimalSchema::Array { byte_array_schema, precision, scale },
        ) => match value {
            ColumnValue::ByteArray(v) => if has_length(byte_array_schema.0, &v) {
                Ok(
                    Value::Decimal(
                        Decimal::Bytes { value: v, precision: *precision, scale: *scale },
                    ),
                )
            } else {
                unfit_error()
            },
            _ => unfit_error(),
        },
        ValueSchema::ByteArray(b) => match value {
            ColumnValue::ByteArray(v) => if has_length(b.0, &v) {
                Ok(Value::ByteArray(v))
            } else {
                unfit_error()
            },
            _ => unfit_error(),
        },
        ValueSchema::Bson(b) => match value {
            ColumnValue::ByteArray(v) => if has_length(b.0.0, &v) {
                Ok(Value::Bson(Bson(v)))
            } else {
                unfit_error()
            },
            _ => unfit_error(),
        },
        ValueSchema::String(b) => match value {
            ColumnValue::ByteArray(v) => match text_from(b.0.0, v) {
                Some(text) => Ok(Value::String(text)),
                None => unfit_error(),
            },
            _ => unfit_error(),
        },
        ValueSchema::Json(b) => match value {
            ColumnValue::ByteArray(v) => match text_from(b.0.0.0, v) {
                Some(text) => Ok(Value::Json(Json(text))),
                None => unfit_error(),
            },
            _ => unfit_error(),
        },
        ValueSchema::Enum(b) => match value {
            ColumnValue::ByteArray(v) => match text_from(b.0.0.0, v) {
                Some(text) => Ok(Value::Enum(Enum(text))),
                None => unfit_error(),
            },
            _ => unfit_error(),
        },
        _ => unfit_error(),
    }
}

/// Where a field fails to be read, the group fails with the same failure, and the
/// columns stay as that field left them.
pub proof fn lemma_read_fields_failure(
    fields: Seq<(Seq<char>, ReaderView)>,
    upto: int,
    columns: Columns,
)
    requires
        0 <= upto <= fields.len(),
        read_fields(fields.take(upto), columns).0 is Err,
    ensures
        read_fields(fields, columns) == read_fields(fields.take(upto), columns),
    decreases fields.len() - upto,
{
    if upto < fields.len() {
        assert(fields.take(upto + 1).drop_last() =~= fields.take(upto));
        lemma_read_fields_failure(fields, upto + 1, columns);
    } else {
        assert(fields.take(upto) =~= fields);
    }
}

/// Where a field cannot pass over a slot, the group fails with the same failure, and
/// the columns stay as that field left them.
pub proof fn lemma_advance_fields_failure(
    fields: Seq<(Seq<char>, ReaderView)>,
    upto: int,
    columns: Columns,
)
    requires
        0 <= upto <= fields.len(),
        advance_fields(fields.take(upto), columns).0 is Some,
    ensures
        advance_fields(fields, columns) == advance_fields(fields.take(upto), columns),
    decreases fields.len() - upto,
{
    if upto < fields.len() {
        assert(fields.take(upto + 1).drop_last() =~= fields.take(upto));
        lemma_advance_fields_failure(fields, upto + 1, columns);
    } else {
        assert(fields.take(upto) =~= fields);
    }
}

/// The view of the reader of a list.
pub open spec fn list_view(list: RepeatedReader) -> ReaderView {
    ReaderView::List {
        element: Box::new(list.reader@),
        def_level: list.def_level as int,
        rep_level: list.rep_level as int,
    }
}

/// The view of the reader of a map.
pub open spec fn map_view(map: KeyValueReader) -> ReaderView {
    ReaderView::Mapping {
        keys: Box::new(map.keys_reader@),
        values: Box::new(map.values_reader@),
        def_level: map.def_level as int,
        rep_level: map.rep_level as int,
    }
}

impl ValueReader {
    /// Returns the column of the reader's first leaf.
    pub fn first_leaf(&self) -> (column: Option<usize>)
        requires
            self.wf(),
        ensures
            handle(column) == first_column(self@),
        decreases self,
    {
        match self {
            ValueReader::Primitive(leaf) => leaf.column,
            ValueReader::List(list) => list.reader.first_leaf(),
            ValueReader::Mapping(map) => map.keys_reader.first_leaf(),
            ValueReader::Group(group) => {
                proof {
                    lemma_named_readers(group.readers@, group.entries());
                    lemma_readers_wf(group.readers@);
                }
                if group.readers.len() == 0 {
                    None
                } else {
                    group.readers[0].first_leaf()
                }
            },
            ValueReader::Option(option) => option.reader.first_leaf(),
            ValueReader::Boxed(boxed) => boxed.0.first_leaf(),
        }
    }

    /// Whether the reader's first leaf has a slot left.
    pub fn has_next(&self, columns: &ColumnSet) -> (b: bool)
        requires
            self.wf(),
            columns.wf(),
        ensures
            b == columns@.has_next(first_column(self@)),
    {
        columns.has_next(self.first_leaf())
    }

    /// Returns the definition level of the next slot of the reader's first leaf.
    pub fn current_def_level(&self, columns: &ColumnSet) -> (level: i16)
        requires
            self.wf(),
            columns.wf(),
        ensures
            level == columns@.def_level(first_column(self@)),
    {
        columns.next_definition_level(self.first_leaf())
    }

    /// Returns the repetition level of the next slot of the reader's first leaf.
    pub fn current_rep_level(&self, columns: &ColumnSet) -> (level: i16)
        requires
            self.wf(),
            columns.wf(),
        ensures
            level == columns@.rep_level(first_column(self@)),
    {
        columns.next_repetition_level(self.first_leaf())
    }

    /// Passes one slot over in the column of every leaf, first leaf to last. Stops at
    /// the first leaf whose column has no slot left, and fails.
    pub fn advance_columns(&self, columns: &mut ColumnSet) -> (r: Result<(), ParquetError>)
        requires
            self.wf(),
            old(columns).wf(),
        ensures
            final(columns).wf(),
            match r {
                Ok(_) => advance(self@, old(columns)@) == (None::<ErrorView>, final(columns)@),
                Err(e) => advance(self@, old(columns)@) == (Some(e@), final(columns)@),
            },
        decreases self,
    {
        match self {
            ValueReader::Primitive(leaf) => columns.advance_null(leaf.column),
            ValueReader::List(list) => list.reader.advance_columns(columns),
            ValueReader::Mapping(map) => {
                match map.keys_reader.advance_columns(columns) {
                    Ok(_) => map.values_reader.advance_columns(columns),
                    Err(e) => Err(e),
                }
            },
            ValueReader::Group(group) => {
                let ghost start = columns@;
                let ghost fields = named_readers(group.readers@, group.entries());
                proof {
                    lemma_named_readers(group.readers@, group.entries());
                    lemma_readers_wf(group.readers@);
                    assert(fields.take(0) =~= Seq::<(Seq<char>, ReaderView)>::empty());
                }
                let mut i: usize = 0;
                while i < group.readers.len()
                    invariant
                        0 <= i <= group.readers.len(),
                        columns.wf(),
                        start == old(columns)@,
                        self matches ValueReader::Group(g) && g == group,
                        fields == named_readers(group.readers@, group.entries()),
                        fields.len() == group.readers.len(),
                        forall|k: int|
                            0 <= k < fields.len() ==> (#[trigger] fields[k]).1
                                == group.readers@[k]@,
                        forall|k: int|
                            0 <= k < group.readers.len() ==> (#[trigger] group.readers@[k]).wf(),
                        advance_fields(fields.take(i as int), start) == (
                            None::<ErrorView>,
                            columns@,
                        ),
                    decreases group.readers.len() - i,
                {
                    proof {
                        assert(fields.take(i + 1).drop_last() =~= fields.take(i as int));
                        assert(fields.take(i + 1).last() == fields[i as int]);
                    }
                    match group.readers[i].advance_columns(columns) {
                        Ok(_) => {},
                        Err(e) => {
                            proof {
                                assert(advance_fields(fields.take(i + 1), start) == (
                                    Some(e@),
                                    columns@,
                                ));
                                lemma_advance_fields_failure(fields, i + 1, start);
                                assert(advance(self@, start) == advance_fields(fields, start));
                            }
                            return Err(e);
                        },
                    }
                    i += 1;
                }
                proof {
                    assert(fields.take(i as int) =~= fields);
                }
                Ok(())
            },
            ValueReader::Option(option) => option.reader.advance_columns(columns),
            ValueReader::Boxed(boxed) => boxed.0.advance_columns(columns),
        }
    }
}

/// Reads a list from the columns.
pub fn read_list(list: &RepeatedReader, columns: &mut ColumnSet) -> (r: Result<
    Value,
    ParquetError,
>)
    requires
        list.reader.wf(),
        old(columns).wf(),
    ensures
        final(columns).wf(),
        match r {
            Ok(value) => value.wf() && value is List && read(list_view(*list), old(columns)@) == (
                Ok::<ValueView, ErrorView>(value@),
                final(columns)@,
            ),
            Err(e) => read(list_view(*list), old(columns)@) == (
                Err::<ValueView, ErrorView>(e@),
                final(columns)@,
            ),
        },
    decreases *list, 0nat,
{
    let ghost view = list_view(*list);
    let ghost start = columns@;
    let first = list.reader.first_leaf();
    let mut elements: Vec<Value> = Vec::new();
    proof {
        assert(value_views(elements@) =~= Seq::<ValueView>::empty());
    }
    loop
        invariant
            columns.wf(),
            list.reader.wf(),
            view == list_view(*list),
            start == old(columns)@,
            handle(first) == first_column(list.reader@),
            values_wf(elements@),
            read_elements(view, columns@, value_views(elements@)) == read_elements(
                view,
                start,
                Seq::<ValueView>::empty(),
            ),
        decreases columns@.left(first_column(view)),
    {
        let ghost here = columns@;
        let ghost so_far = value_views(elements@);
        if columns.next_definition_level(first) > list.def_level {
            let left = columns.slots_left(first);
            match list.reader.read(columns) {
                Ok(value) => {
                    proof {
                        lemma_value_views_push(elements@, value);
                    }
                    elements.push(value);
                    if columns.has_next(first) && columns.next_repetition_level(first)
                        > list.rep_level && columns.slots_left(first) < left {
                    } else {
                        return Ok(Value::List(List(elements)));
                    }
                },
                Err(e) => {
                    return Err(e);
                },
            }
        } else {
            return match list.reader.advance_columns(columns) {
                Ok(_) => Ok(Value::List(List(elements))),
                Err(e) => Err(e),
            };
        }
    }
}

/// Reads a map from the columns.
pub fn read_map(map: &KeyValueReader, columns: &mut ColumnSet) -> (r: Result<Value, ParquetError>)
    requires
        map.keys_reader.wf(),
        map.values_reader.wf(),
        old(columns).wf(),
    ensures
        final(columns).wf(),
        match r {
            Ok(value) => value.wf() && value is Mapping && read(map_view(*map), old(columns)@)
                == (Ok::<ValueView, ErrorView>(value@), final(columns)@),
            Err(e) => read(map_view(*map), old(columns)@) == (
                Err::<ValueView, ErrorView>(e@),
                final(columns)@,
            ),
        },
    decreases *map, 0nat,
{
    let ghost view = map_view(*map);
    let ghost start = columns@;
    let first = map.keys_reader.first_leaf();
    let mut entries: Mapping<Value, Value> = Mapping::new();
    loop
        invariant
            columns.wf(),
            map.keys_reader.wf(),
            map.values_reader.wf(),
            view == map_view(*map),
            start == old(columns)@,
            handle(first) == first_column(map.keys_reader@),
            entries_wf(entries.0@),
            read_entries(view, columns@, entries.entries()) == read_entries(
                view,
                start,
                Seq::<(ValueView, ValueView)>::empty(),
            ),
        decreases columns@.left(first_column(view)),
    {
        if columns.next_definition_level(first) > map.def_level {
            let left = columns.slots_left(first);
            let key = match map.keys_reader.read(columns) {
                Ok(key) => key,
                Err(e) => {
                    return Err(e);
                },
            };
            let value = match map.values_reader.read(columns) {
                Ok(value) => value,
                Err(e) => {
                    return Err(e);
                },
            };
            let _ = entries.insert(key, value);
            if columns.has_next(first) && columns.next_repetition_level(first) > map.rep_level
                && columns.slots_left(first) < left {
            } else {
                return Ok(Value::Mapping(entries));
            }
        } else {
            let advanced = match map.keys_reader.advance_columns(columns) {
                Ok(_) => map.values_reader.advance_columns(columns),
                Err(e) => Err(e),
            };
            return match advanced {
                Ok(_) => Ok(Value::Mapping(entries)),
                Err(e) => Err(e),
            };
        }
    }
}

/// Reads a group from the columns.
pub fn read_group(group: &GroupReader, columns: &mut ColumnSet) -> (r: Result<
    Value,
    ParquetError,
>)
    requires
        ValueReader::Group(*group).wf(),
        old(columns).wf(),
    ensures
        final(columns).wf(),
        match r {
            Ok(value) => value.wf() && value is Group && read(
                ValueReader::Group(*group)@,
                old(columns)@,
            ) == (Ok::<ValueView, ErrorView>(value@), final(columns)@),
            Err(e) => read(ValueReader::Group(*group)@, old(columns)@) == (
                Err::<ValueView, ErrorView>(e@),
                final(columns)@,
            ),
        },
    decreases *group, 0nat,
{
    let ghost start = columns@;
    let ghost fields = named_readers(group.readers@, group.entries());
    proof {
        lemma_named_readers(group.readers@, group.entries());
        lemma_readers_wf(group.readers@);
        assert(fields.take(0) =~= Seq::<(Seq<char>, ReaderView)>::empty());
    }
    let mut values: Vec<Value> = Vec::with_capacity(group.readers.len());
    proof {
        assert(value_views(values@) =~= Seq::<ValueView>::empty());
    }
    let mut i: usize = 0;
    while i < group.readers.len()
        invariant
            0 <= i <= group.readers.len(),
            columns.wf(),
            start == old(columns)@,
            fields == named_readers(group.readers@, group.entries()),
            fields.len() == group.readers.len(),
            forall|k: int| 0 <= k < fields.len() ==> (#[trigger] fields[k]).1 == group.readers@[k]@,
            forall|k: int| 0 <= k < group.readers.len() ==> (#[trigger] group.readers@[k]).wf(),
            values@.len() == i,
            values_wf(values@),
            read_fields(fields.take(i as int), start) == (
                Ok::<Seq<ValueView>, ErrorView>(value_views(values@)),
                columns@,
            ),
        decreases group.readers.len() - i,
    {
        proof {
            assert(fields.take(i + 1).drop_last() =~= fields.take(i as int));
            assert(fields.take(i + 1).last() == fields[i as int]);
        }
        match group.readers[i].read(columns) {
            Ok(value) => {
                proof {
                    lemma_value_views_push(values@, value);
                }
                values.push(value);
            },
            Err(e) => {
                proof {
                    assert(read_fields(fields.take(i + 1), start) == (
                        Err::<Seq<ValueView>, ErrorView>(e@),
                        columns@,
                    ));
                    lemma_read_fields_failure(fields, i + 1, start);
                }
                return Err(e);
            },
        }
        i += 1;
    }
    let names = share_index(&group.fields);
    proof {
        assert(fields.take(i as int) =~= fields);
        assert(ordinals(fields) =~= group.entries());
    }
    Ok(Value::Group(Group(values, names)))
}

impl ValueReader {
    /// Assembles the next value from the columns.
    pub fn read(&self, columns: &mut ColumnSet) -> (r: Result<Value, ParquetError>)
        requires
            self.wf(),
            old(columns).wf(),
        ensures
            final(columns).wf(),
            match r {
                Ok(value) => value.wf() && (value is Option ==> self.yields_option()) && read(
                    self@,
                    old(columns)@,
                ) == (Ok::<ValueView, ErrorView>(value@), final(columns)@),
                Err(e) => read(self@, old(columns)@) == (
                    Err::<ValueView, ErrorView>(e@),
                    final(columns)@,
                ),
            },
        decreases *self, 1nat,
    {
        match self {
            ValueReader::Primitive(leaf) => {
                match columns.advance_value(leaf.column) {
                    Ok(value) => convert_value(&leaf.schema, value),
                    Err(e) => Err(e),
                }
            },
            ValueReader::List(list) => read_list(list, columns),
            ValueReader::Mapping(map) => read_map(map, columns),
            ValueReader::Group(group) => read_group(group, columns),
            ValueReader::Option(option) => {
                if option.reader.current_def_level(columns) > option.def_level {
                    match option.reader.read(columns) {
                        Ok(value) => Ok(Value::Option(Some(Box::new(value)))),
                        Err(e) => Err(e),
                    }
                } else {
                    match option.reader.advance_columns(columns) {
                        Ok(_) => Ok(Value::Option(None)),
                        Err(e) => Err(e),
                    }
                }
            },
            ValueReader::Boxed(boxed) => boxed.0.read(columns),
        }
    }
}

/// The values of the fields of a group that is read are as many as the readers.
pub proof fn lemma_read_fields_len(fields: Seq<(Seq<char>, ReaderView)>, columns: Columns)
    ensures
        read_fields(fields, columns).0 matches Ok(values) ==> values.len() == fields.len(),
    decreases fields.len(),
{
    if fields.len() > 0 {
        lemma_read_fields_len(fields.drop_last(), columns);
    }
}

/// A group is read in the order of its schema. The reader of a group has one reader
/// per field of the schema, in the schema's order and under the schema's names; and
/// the group that it reads has one value per field, in that order, with an index that
/// holds each name at its position.
pub proof fn lemma_group_order(
    fields: Seq<(Seq<char>, SchemaView)>,
    path: Seq<Seq<char>>,
    def_level: int,
    rep_level: int,
    paths: Seq<Seq<Seq<char>>>,
    batch_size: int,
    columns: Columns,
)
    ensures
        crate::record::reader::build(
            SchemaView::Group(fields),
            path,
            def_level,
            rep_level,
            paths,
            batch_size,
        ) matches ReaderView::Group { fields: readers, .. } && readers.len() == fields.len() && (
        forall|i: int| 0 <= i < fields.len() ==> (#[trigger] readers[i]).0 == fields[i].0) && (read(
            crate::record::reader::build(
                SchemaView::Group(fields),
                path,
                def_level,
                rep_level,
                paths,
                batch_size,
            ),
            columns,
        ).0 matches Ok(ValueView::Group { fields: values, index }) ==> values.len() == fields.len()
            && index.len() == fields.len() && forall|i: int|
            0 <= i < fields.len() ==> #[trigger] index[i] == (fields[i].0, i as usize)),
{
    crate::record::reader::lemma_build_fields(
        fields,
        path,
        def_level,
        rep_level,
        paths,
        batch_size,
    );
    let readers = crate::record::reader::build_fields(
        fields,
        path,
        def_level,
        rep_level,
        paths,
        batch_size,
    );
    lemma_read_fields_len(readers, columns);
}

/// The rows that a reader reads behind those already read, `so_far`: one row after
/// the other while the reader's first column has a slot left, and no more once
/// reading a row consumed nothing of that column.
pub open spec fn read_rows(reader: ReaderView, columns: Columns, so_far: Seq<ValueView>) -> (
    Result<Seq<ValueView>, ErrorView>,
    Columns,
)
    decreases columns.left(first_column(reader)),
{
    let first = first_column(reader);
    if columns.has_next(first) {
        match read(reader, columns) {
            (Ok(row), after) => if after.left(first) < columns.left(first) {
                read_rows(reader, after, so_far.push(row))
            } else {
                (Ok(so_far.push(row)), after)
            },
            (Err(e), after) => (Err(e), after),
        }
    } else {
        (Ok(so_far), columns)
    }
}

impl ValueReader {
    /// Reads the rows that are left in the columns, first to last. Stops at the first
    /// row that fails, with its failure.
    pub fn read_all(&self, columns: &mut ColumnSet) -> (r: Result<Vec<Value>, ParquetError>)
        requires
            self.wf(),
            old(columns).wf(),
        ensures
            final(columns).wf(),
            match r {
                Ok(rows) => values_wf(rows@) && read_rows(
                    self@,
                    old(columns)@,
                    Seq::<ValueView>::empty(),
                ) == (Ok::<Seq<ValueView>, ErrorView>(value_views(rows@)), final(columns)@),
                Err(e) => read_rows(self@, old(columns)@, Seq::<ValueView>::empty()) == (
                    Err::<Seq<ValueView>, ErrorView>(e@),
                    final(columns)@,
                ),
            },
    {
        let ghost start = columns@;
        let first = self.first_leaf();
        let mut rows: Vec<Value> = Vec::new();
        proof {
            assert(value_views(rows@) =~= Seq::<ValueView>::empty());
        }
        while columns.has_next(first)
            invariant
                self.wf(),
                columns.wf(),
                start == old(columns)@,
                handle(first) == first_column(self@),
                values_wf(rows@),
                read_rows(self@, columns@, value_views(rows@)) == read_rows(
                    self@,
                    start,
                    Seq::<ValueView>::empty(),
                ),
            decreases columns@.left(first_column(self@)),
        {
            let left = columns.slots_left(first);
            match self.read(columns) {
                Ok(row) => {
                    proof {
                        lemma_value_views_push(rows@, row);
                    }
                    rows.push(row);
                    if columns.slots_left(first) >= left {
                        return Ok(rows);
                    }
                },
                Err(e) => {
                    return Err(e);
                },
            }
        }
        Ok(rows)
    }
}

} // verus!
