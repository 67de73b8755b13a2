//! The dynamic value: any value that a file can hold.

use crate::basic::{LogicalType, PhysicalType, Repetition};
use crate::errors::{ErrorView, ParquetError};
use crate::record::infer::{fixed_length, infer, infer_core, primitive_schema};
use crate::record::schemas::{
    BoolSchema, BsonSchema, ByteArraySchema, DateSchema, DecimalSchema, EnumSchema, F32Schema,
    F64Schema, I16Schema, I32Schema, I64Schema, I8Schema, JsonSchema, ListSchema, ListSchemaType,
    OptionSchema, SchemaView, StringSchema, TimeSchema, TimestampSchema, U16Schema, U32Schema,
    U64Schema, U8Schema, ValueSchema,
};
use crate::record::reader::{
    build, copy_path, find_column, is_primitive, levels_fit, path_view, paths_view, OptionReader,
    PrimitiveReader, ValueReader,
};
use crate::record::types::group::{parse_fields, Group};
use crate::record::types::list::parse_list;
use crate::record::types::map::parse_map;
use crate::schema::{holds_decimal, lemma_children_valid, Type};
use crate::text::owned;
use crate::record::types::list::List;
use crate::record::types::map::Mapping;
use crate::errors::ValueKind;
use crate::record::column::copy_bytes;
use crate::record::reader::share_index;
use crate::record::index::{index_entries, index_is_consistent, indexes};
use crate::record::types::{
    Bson, Date, Decimal, DecimalView, Enum, Float32, Float64, Json, Time, Timestamp,
};
use vstd::prelude::*;

verus! {

/// Any value that a file can hold.
#[derive(Debug)]
pub enum Value {
    /// A truth value.
    Bool(bool),
    /// An unsigned integer of 8 bits.
    U8(u8),
    /// A signed integer of 8 bits.
    I8(i8),
    /// An unsigned integer of 16 bits.
    U16(u16),
    /// A signed integer of 16 bits.
    I16(i16),
    /// An unsigned integer of 32 bits.
    U32(u32),
    /// A signed integer of 32 bits.
    I32(i32),
    /// An unsigned integer of 64 bits.
    U64(u64),
    /// A signed integer of 64 bits.
    I64(i64),
    /// A floating point number of 32 bits.
    F32(Float32),
    /// A floating point number of 64 bits.
    F64(Float64),
    /// A date without a time of day.
    Date(Date),
    /// A time of day.
    Time(Time),
    /// A moment in time.
    Timestamp(Timestamp),
    /// A decimal number.
    Decimal(Decimal),
    /// Bytes with no further meaning.
    ByteArray(Vec<u8>),
    /// A BSON document.
    Bson(Bson),
    /// A character string.
    String(String),
    /// A JSON text.
    Json(Json),
    /// The name of a value of an enumeration.
    Enum(Enum),
    /// A list of values.
    List(List<Value>),
    /// A map from values to values.
    Mapping(Mapping<Value, Value>),
    /// A group of named fields.
    Group(Group),
    /// A value that may be absent. A present value is never itself of this variant.
    Option(Option<Box<Value>>),
}

/// What a value is: the tree of its parts, with strings and byte arrays as sequences,
/// a list as the sequence of its elements, a map as the sequence of its entries, and
/// a group as the sequence of its fields with the entries of its name index.
pub enum ValueView {
    Bool(bool),
    U8(u8),
    I8(i8),
    U16(u16),
    I16(i16),
    U32(u32),
    I32(i32),
    U64(u64),
    I64(i64),
    /// The bits of the number.
    F32(u32),
    /// The bits of the number.
    F64(u64),
    Date(Date),
    Time(Time),
    Timestamp(Timestamp),
    Decimal(DecimalView),
    ByteArray(Seq<u8>),
    Bson(Seq<u8>),
    String(Seq<char>),
    Json(Seq<char>),
    Enum(Seq<char>),
    List(Seq<ValueView>),
    Mapping(Seq<(ValueView, ValueView)>),
    Group { fields: Seq<ValueView>, index: Seq<(Seq<char>, usize)> },
    Option(Option<Box<ValueView>>),
}

/// The views of `values`, in order.
pub open spec fn value_views(values: Seq<Value>) -> Seq<ValueView>
    decreases values,
{
    if values.len() == 0 {
        Seq::empty()
    } else {
        value_views(values.drop_last()).push(values.last()@)
    }
}

/// The views of the entries of a map, in order.
pub open spec fn entry_views(entries: Seq<(Value, Value)>) -> Seq<(ValueView, ValueView)>
    decreases entries,
{
    if entries.len() == 0 {
        Seq::empty()
    } else {
        entry_views(entries.drop_last()).push((entries.last().0@, entries.last().1@))
    }
}

/// Whether every value of `values` is well formed.
pub open spec fn values_wf(values: Seq<Value>) -> bool
    decreases values,
{
    values.len() == 0 || (values_wf(values.drop_last()) && values.last().wf())
}

/// Whether every key and value of `entries` is well formed.
pub open spec fn entries_wf(entries: Seq<(Value, Value)>) -> bool
    decreases entries,
{
    entries.len() == 0 || (entries_wf(entries.drop_last()) && entries.last().0.wf()
        && entries.last().1.wf())
}

impl View for Value {
    type V = ValueView;

    open spec fn view(&self) -> ValueView
        decreases *self,
    {
        match *self {
            Value::Bool(v) => ValueView::Bool(v),
            Value::U8(v) => ValueView::U8(v),
            Value::I8(v) => ValueView::I8(v),
            Value::U16(v) => ValueView::U16(v),
            Value::I16(v) => ValueView::I16(v),
            Value::U32(v) => ValueView::U32(v),
            Value::I32(v) => ValueView::I32(v),
            Value::U64(v) => ValueView::U64(v),
            Value::I64(v) => ValueView::I64(v),
            Value::F32(v) => ValueView::F32(v.bits),
            Value::F64(v) => ValueView::F64(v.bits),
            Value::Date(v) => ValueView::Date(v),
            Value::Time(v) => ValueView::Time(v),
            Value::Timestamp(v) => ValueView::Timestamp(v),
            Value::Decimal(v) => ValueView::Decimal(v@),
            Value::ByteArray(v) => ValueView::ByteArray(v@),
            Value::Bson(v) => ValueView::Bson(v.0@),
            Value::String(v) => ValueView::String(v@),
            Value::Json(v) => ValueView::Json(v.0@),
            Value::Enum(v) => ValueView::Enum(v.0@),
            Value::List(v) => ValueView::List(value_views(v.0@)),
            Value::Mapping(v) => ValueView::Mapping(entry_views(v.0@)),
            Value::Group(v) => ValueView::Group {
                fields: value_views(v.0@),
                index: index_entries(*v.1),
            },
            Value::Option(None) => ValueView::Option(None),
            Value::Option(Some(v)) => ValueView::Option(Some(Box::new((*v).view()))),
        }
    }
}

impl Value {
    /// Whether the value is well formed: a present optional value is not itself
    /// optional, and the index of every group lists the group's fields, in order,
    /// under distinct names.
    pub open spec fn wf(self) -> bool
        decreases self,
    {
        match self {
            Value::List(v) => values_wf(v.0@),
            Value::Mapping(v) => entries_wf(v.0@),
            Value::Group(v) => values_wf(v.0@) && indexes(index_entries(*v.1), v.0@.len()),
            Value::Option(Some(v)) => v.wf() && !(*v is Option),
            _ => true,
        }
    }

    /// The variant of the value.
    pub open spec fn kind_of(self) -> ValueKind {
        match self {
            Value::Bool(_) => ValueKind::Bool,
            Value::U8(_) => ValueKind::U8,
            Value::I8(_) => ValueKind::I8,
            Value::U16(_) => ValueKind::U16,
            Value::I16(_) => ValueKind::I16,
            Value::U32(_) => ValueKind::U32,
            Value::I32(_) => ValueKind::I32,
            Value::U64(_) => ValueKind::U64,
            Value::I64(_) => ValueKind::I64,
            Value::F32(_) => ValueKind::F32,
            Value::F64(_) => ValueKind::F64,
            Value::Date(_) => ValueKind::Date,
            Value::Time(_) => ValueKind::Time,
            Value::Timestamp(_) => ValueKind::Timestamp,
            Value::Decimal(_) => ValueKind::Decimal,
            Value::ByteArray(_) => ValueKind::ByteArray,
            Value::Bson(_) => ValueKind::Bson,
            Value::String(_) => ValueKind::String,
            Value::Json(_) => ValueKind::Json,
            Value::Enum(_) => ValueKind::Enum,
            Value::List(_) => ValueKind::List,
            Value::Mapping(_) => ValueKind::Mapping,
            Value::Group(_) => ValueKind::Group,
            Value::Option(_) => ValueKind::Option,
        }
    }

    /// Returns the variant of the value.
    pub fn kind(&self) -> (kind: ValueKind)
        ensures
            kind == self.kind_of(),
            kind == view_kind(self@),
    {
        match self {
            Value::Bool(_) => ValueKind::Bool,
            Value::U8(_) => ValueKind::U8,
            Value::I8(_) => ValueKind::I8,
            Value::U16(_) => ValueKind::U16,
            Value::I16(_) => ValueKind::I16,
            Value::U32(_) => ValueKind::U32,
            Value::I32(_) => ValueKind::I32,
            Value::U64(_) => ValueKind::U64,
            Value::I64(_) => ValueKind::I64,
            Value::F32(_) => ValueKind::F32,
            Value::F64(_) => ValueKind::F64,
            Value::Date(_) => ValueKind::Date,
            Value::Time(_) => ValueKind::Time,
            Value::Timestamp(_) => ValueKind::Timestamp,
            Value::Decimal(_) => ValueKind::Decimal,
            Value::ByteArray(_) => ValueKind::ByteArray,
            Value::Bson(_) => ValueKind::Bson,
            Value::String(_) => ValueKind::String,
            Value::Json(_) => ValueKind::Json,
            Value::Enum(_) => ValueKind::Enum,
            Value::List(_) => ValueKind::List,
            Value::Mapping(_) => ValueKind::Mapping,
            Value::Group(_) => ValueKind::Group,
            Value::Option(_) => ValueKind::Option,
        }
    }
}

/// The variant of a value, by its view.
pub open spec fn view_kind(v: ValueView) -> ValueKind {
    match v {
        ValueView::Bool(_) => ValueKind::Bool,
        ValueView::U8(_) => ValueKind::U8,
        ValueView::I8(_) => ValueKind::I8,
        ValueView::U16(_) => ValueKind::U16,
        ValueView::I16(_) => ValueKind::I16,
        ValueView::U32(_) => ValueKind::U32,
        ValueView::I32(_) => ValueKind::I32,
        ValueView::U64(_) => ValueKind::U64,
        ValueView::I64(_) => ValueKind::I64,
        ValueView::F32(_) => ValueKind::F32,
        ValueView::F64(_) => ValueKind::F64,
        ValueView::Date(_) => ValueKind::Date,
        ValueView::Time(_) => ValueKind::Time,
        ValueView::Timestamp(_) => ValueKind::Timestamp,
        ValueView::Decimal(_) => ValueKind::Decimal,
        ValueView::ByteArray(_) => ValueKind::ByteArray,
        ValueView::Bson(_) => ValueKind::Bson,
        ValueView::String(_) => ValueKind::String,
        ValueView::Json(_) => ValueKind::Json,
        ValueView::Enum(_) => ValueKind::Enum,
        ValueView::List(_) => ValueKind::List,
        ValueView::Mapping(_) => ValueKind::Mapping,
        ValueView::Group { .. } => ValueKind::Group,
        ValueView::Option(_) => ValueKind::Option,
    }
}

/// What [`value_views`] holds at each position.
pub proof fn lemma_value_views(values: Seq<Value>)
    ensures
        value_views(values).len() == values.len(),
        forall|i: int| 0 <= i < values.len() ==> #[trigger] value_views(values)[i] == values[i]@,
    decreases values.len(),
{
    if values.len() > 0 {
        lemma_value_views(values.drop_last());
        assert(value_views(values) == value_views(values.drop_last()).push(values.last()@));
        assert forall|i: int| 0 <= i < values.len() implies #[trigger] value_views(values)[i]
            == values[i]@ by {
            if i < values.len() - 1 {
                assert(value_views(values.drop_last())[i] == values.drop_last()[i]@);
            }
        }
    }
}

/// What [`entry_views`] holds at each position.
pub proof fn lemma_entry_views(entries: Seq<(Value, Value)>)
    ensures
        entry_views(entries).len() == entries.len(),
        forall|i: int|
            0 <= i < entries.len() ==> #[trigger] entry_views(entries)[i] == (
                entries[i].0@,
                entries[i].1@,
            ),
    decreases entries.len(),
{
    if entries.len() > 0 {
        lemma_entry_views(entries.drop_last());
        assert(entry_views(entries) == entry_views(entries.drop_last()).push(
            (entries.last().0@, entries.last().1@),
        ));
        assert forall|i: int| 0 <= i < entries.len() implies #[trigger] entry_views(entries)[i]
            == (entries[i].0@, entries[i].1@) by {
            if i < entries.len() - 1 {
                assert(entry_views(entries.drop_last())[i] == (
                    entries.drop_last()[i].0@,
                    entries.drop_last()[i].1@,
                ));
            }
        }
    }
}

/// All values of a sequence are well formed exactly when each one is.
pub proof fn lemma_values_wf(values: Seq<Value>)
    ensures
        values_wf(values) <==> forall|i: int| 0 <= i < values.len() ==> (#[trigger] values[i]).wf(),
    decreases values.len(),
{
    if values.len() > 0 {
        lemma_values_wf(values.drop_last());
        if values_wf(values) {
            assert forall|i: int| 0 <= i < values.len() implies (#[trigger] values[i]).wf() by {
                if i < values.len() - 1 {
                    assert(values.drop_last()[i] == values[i]);
                }
            }
        } else if forall|i: int| 0 <= i < values.len() ==> (#[trigger] values[i]).wf() {
            assert forall|i: int| 0 <= i < values.drop_last().len() implies (
            #[trigger] values.drop_last()[i]).wf() by {
                assert(values.drop_last()[i] == values[i]);
            }
        }
    }
}

/// All entries of a sequence are well formed exactly when the key and the value of
/// each one are.
pub proof fn lemma_entries_wf(entries: Seq<(Value, Value)>)
    ensures
        entries_wf(entries) <==> forall|i: int|
            0 <= i < entries.len() ==> (#[trigger] entries[i]).0.wf() && entries[i].1.wf(),
    decreases entries.len(),
{
    if entries.len() > 0 {
        lemma_entries_wf(entries.drop_last());
        if entries_wf(entries) {
            assert forall|i: int| 0 <= i < entries.len() implies (#[trigger] entries[i]).0.wf()
                && entries[i].1.wf() by {
                if i < entries.len() - 1 {
                    assert(entries.drop_last()[i] == entries[i]);
                }
            }
        } else if forall|i: int|
            0 <= i < entries.len() ==> (#[trigger] entries[i]).0.wf() && entries[i].1.wf() {
            assert forall|i: int| 0 <= i < entries.drop_last().len() implies (
            #[trigger] entries.drop_last()[i]).0.wf() && entries.drop_last()[i].1.wf() by {
                assert(entries.drop_last()[i] == entries[i]);
            }
        }
    }
}

/// The length of a column of fixed length, for its schema.
fn declared_length(physical: PhysicalType, type_length: i32) -> (length: Option<u32>)
    requires
        physical == PhysicalType::FixedLenByteArray ==> type_length >= 0,
    ensures
        length == fixed_length(physical, type_length),
{
    match physical {
        PhysicalType::FixedLenByteArray => Some(type_length as u32),
        _ => None,
    }
}

/// The schema of a primitive column, by its physical type and annotation.
pub fn parse_primitive(
    physical: PhysicalType,
    logical: LogicalType,
    type_length: i32,
    precision: i32,
    scale: i32,
) -> (r: Result<ValueSchema, ParquetError>)
    requires
        physical == PhysicalType::FixedLenByteArray ==> type_length >= 0,
        logical == LogicalType::Decimal && holds_decimal(physical) ==> precision >= 0 && scale >= 0,
    ensures
        match r {
            Ok(schema) => schema.wf() && primitive_schema(
                physical,
                logical,
                type_length,
                precision,
                scale,
            ) == Ok::<SchemaView, ErrorView>(schema@),
            Err(e) => primitive_schema(physical, logical, type_length, precision, scale) == Err::<
                SchemaView,
                ErrorView,
            >(e@),
        },
{
    match physical {
        PhysicalType::Boolean => Ok(ValueSchema::Bool(BoolSchema)),
        PhysicalType::Int32 => Ok(
            match logical {
                LogicalType::Uint8 => ValueSchema::U8(U8Schema),
                LogicalType::Int8 => ValueSchema::I8(I8Schema),
                LogicalType::Uint16 => ValueSchema::U16(U16Schema),
                LogicalType::Int16 => ValueSchema::I16(I16Schema),
                LogicalType::Uint32 => ValueSchema::U32(U32Schema),
                LogicalType::Date => ValueSchema::Date(DateSchema),
                LogicalType::TimeMillis => ValueSchema::Time(TimeSchema::Millis),
                LogicalType::Decimal => ValueSchema::Decimal(
                    DecimalSchema::Int32 { precision: precision as u32, scale: scale as u32 },
                ),
                _ => ValueSchema::I32(I32Schema),
            },
        ),
        PhysicalType::Int64 => Ok(
            match logical {
                LogicalType::Uint64 => ValueSchema::U64(U64Schema),
                LogicalType::TimeMicros => ValueSchema::Time(TimeSchema::Micros),
                LogicalType::TimestampMillis => ValueSchema::Timestamp(TimestampSchema::Millis),
                LogicalType::TimestampMicros => ValueSchema::Timestamp(TimestampSchema::Micros),
                LogicalType::Decimal => ValueSchema::Decimal(
                    DecimalSchema::Int64 { precision: precision as u32, scale: scale as u32 },
                ),
                _ => ValueSchema::I64(I64Schema),
            },
        ),
        PhysicalType::Int96 => Ok(ValueSchema::Timestamp(TimestampSchema::Int96)),
        PhysicalType::Float => Ok(ValueSchema::F32(F32Schema)),
        PhysicalType::Double => Ok(ValueSchema::F64(F64Schema)),
        PhysicalType::ByteArray | PhysicalType::FixedLenByteArray => {
            let bytes = ByteArraySchema(declared_length(physical, type_length));
            match logical {
                LogicalType::Utf8 => Ok(ValueSchema::String(StringSchema(bytes))),
                LogicalType::Json => Ok(ValueSchema::Json(JsonSchema(StringSchema(bytes)))),
                LogicalType::Enum => Ok(ValueSchema::Enum(EnumSchema(StringSchema(bytes)))),
                LogicalType::Bson => Ok(ValueSchema::Bson(BsonSchema(bytes))),
                LogicalType::Decimal => Ok(
                    ValueSchema::Decimal(
                        DecimalSchema::Array {
                            byte_array_schema: bytes,
                            precision: precision as u32,
                            scale: scale as u32,
                        },
                    ),
                ),
                LogicalType::Interval => Err(
                    ParquetError::UnsupportedAnnotation { name: LogicalType::Interval },
                ),
                _ => Ok(ValueSchema::ByteArray(bytes)),
            }
        },
    }
}

impl Value {
    /// Infers the schema of the values that a node of the type tree describes, and
    /// returns it with the node's name. `repetition` is how the node occurs in its
    /// parent; the root of a tree occurs with none.
    pub fn parse(schema: &Type, repetition: Option<Repetition>) -> (r: Result<
        (String, ValueSchema),
        ParquetError,
    >)
        requires
            schema.valid(),
        ensures
            match r {
                Ok((name, value)) => name@ == schema.name_view() && value.wf() && infer(
                    *schema,
                    repetition,
                ) == Ok::<SchemaView, ErrorView>(value@),
                Err(e) => infer(*schema, repetition) == Err::<SchemaView, ErrorView>(e@),
            },
        decreases *schema, 2nat,
    {
        proof {
            lemma_children_valid(*schema);
        }
        let core: Result<ValueSchema, ParquetError> = match schema {
            Type::PrimitiveType { basic_info, physical_type, type_length, scale, precision } => {
                if repetition.is_some() {
                    parse_primitive(
                        *physical_type,
                        basic_info.logical_type,
                        *type_length,
                        *precision,
                        *scale,
                    )
                } else {
                    Err(ParquetError::ClassificationFailed { context: owned(schema.name()) })
                }
            },
            Type::GroupType { fields, .. } => {
                match parse_list(schema) {
                    Ok(list) => Ok(ValueSchema::List(Box::new(list))),
                    Err(_) => match parse_map(schema) {
                        Ok(map) => Ok(ValueSchema::Mapping(Box::new(map))),
                        Err(_) => if fields.len() > 0 {
                            match parse_fields(fields) {
                                Ok(group) => Ok(ValueSchema::Group(group)),
                                Err(e) => Err(e),
                            }
                        } else {
                            Err(
                                ParquetError::ClassificationFailed {
                                    context: owned(schema.name()),
                                },
                            )
                        },
                    },
                }
            },
        };
        assert(match core {
            Ok(value) => value.wf() && !(value is Option) && infer_core(*schema, repetition)
                == Ok::<SchemaView, ErrorView>(value@),
            Err(e) => infer_core(*schema, repetition) == Err::<SchemaView, ErrorView>(e@),
        });
        match core {
            Err(e) => Err(e),
            Ok(value) => {
                let lifted = match repetition {
                    Some(Repetition::Optional) => ValueSchema::Option(
                        Box::new(OptionSchema(value)),
                    ),
                    Some(Repetition::Repeated) => ValueSchema::List(
                        Box::new(ListSchema(value, ListSchemaType::Repeated)),
                    ),
                    _ => value,
                };
                Ok((owned(schema.name()), lifted))
            },
        }
    }
}

/// Returns a copy of a primitive schema.
pub fn copy_primitive(schema: &ValueSchema) -> (copy: ValueSchema)
    requires
        is_primitive(schema@),
    ensures
        copy@ == schema@,
{
    match schema {
        ValueSchema::Bool(s) => ValueSchema::Bool(*s),
        ValueSchema::U8(s) => ValueSchema::U8(*s),
        ValueSchema::I8(s) => ValueSchema::I8(*s),
        ValueSchema::U16(s) => ValueSchema::U16(*s),
        ValueSchema::I16(s) => ValueSchema::I16(*s),
        ValueSchema::U32(s) => ValueSchema::U32(*s),
        ValueSchema::I32(s) => ValueSchema::I32(*s),
        ValueSchema::U64(s) => ValueSchema::U64(*s),
        ValueSchema::I64(s) => ValueSchema::I64(*s),
        ValueSchema::F32(s) => ValueSchema::F32(*s),
        ValueSchema::F64(s) => ValueSchema::F64(*s),
        ValueSchema::Date(s) => ValueSchema::Date(*s),
        ValueSchema::Time(s) => ValueSchema::Time(*s),
        ValueSchema::Timestamp(s) => ValueSchema::Timestamp(*s),
        ValueSchema::Decimal(s) => ValueSchema::Decimal(*s),
        ValueSchema::ByteArray(s) => ValueSchema::ByteArray(*s),
        ValueSchema::Bson(s) => ValueSchema::Bson(*s),
        ValueSchema::String(s) => ValueSchema::String(*s),
        ValueSchema::Json(s) => ValueSchema::Json(*s),
        ValueSchema::Enum(s) => ValueSchema::Enum(*s),
        _ => vstd::pervasive::unreached(),
    }
}

/// Builds the reader of an optional value: the reader of the value, one definition
/// level deeper.
pub fn option_reader(
    schema: &OptionSchema<ValueSchema>,
    path: &mut Vec<String>,
    def_level: i16,
    rep_level: i16,
    paths: &Vec<Vec<String>>,
    batch_size: usize,
) -> (reader: OptionReader)
    requires
        schema.0.wf(),
        def_level < i16::MAX,
        levels_fit(schema.0@, def_level + 1, rep_level as int),
    ensures
        final(path)@ == old(path)@,
        reader.reader.wf(),
        reader.def_level == def_level,
        reader.rep_level == rep_level,
        reader.reader@ == build(
            schema.0@,
            path_view(old(path)@),
            def_level + 1,
            rep_level as int,
            paths_view(paths@),
            batch_size as int,
        ),
    decreases *schema, 0nat,
{
    let reader = Value::reader(&schema.0, path, def_level + 1, rep_level, paths, batch_size);
    OptionReader { reader, def_level, rep_level }
}

impl Value {
    /// Builds the reader tree of a schema that stands at `path` and at the given
    /// levels. `paths` are the paths of the file's columns; each leaf is bound to the
    /// first column that has the leaf's path. `path` is used as a stack on the way and
    /// is left as it was found.
    pub fn reader(
        schema: &ValueSchema,
        path: &mut Vec<String>,
        def_level: i16,
        rep_level: i16,
        paths: &Vec<Vec<String>>,
        batch_size: usize,
    ) -> (reader: ValueReader)
        requires
            schema.wf(),
            levels_fit(schema@, def_level as int, rep_level as int),
        ensures
            final(path)@ == old(path)@,
            reader.wf(),
            reader@ == build(
                schema@,
                path_view(old(path)@),
                def_level as int,
                rep_level as int,
                paths_view(paths@),
                batch_size as int,
            ),
        decreases *schema, 1nat,
    {
        match schema {
            ValueSchema::List(list) => ValueReader::List(
                Box::new(List::reader(list, path, def_level, rep_level, paths, batch_size)),
            ),
            ValueSchema::Mapping(map) => ValueReader::Mapping(
                Box::new(Mapping::reader(map, path, def_level, rep_level, paths, batch_size)),
            ),
            ValueSchema::Group(group) => ValueReader::Group(
                Group::reader(group, path, def_level, rep_level, paths, batch_size),
            ),
            ValueSchema::Option(option) => ValueReader::Option(
                Box::new(option_reader(option, path, def_level, rep_level, paths, batch_size)),
            ),
            _ => ValueReader::Primitive(
                PrimitiveReader {
                    schema: copy_primitive(schema),
                    path: copy_path(path),
                    def_level,
                    rep_level,
                    column: find_column(paths, path),
                    batch_size,
                },
            ),
        }
    }
}

/// The views of a sequence with one value more, and whether they are well formed.
pub proof fn lemma_value_views_push(values: Seq<Value>, value: Value)
    ensures
        value_views(values.push(value)) == value_views(values).push(value@),
        values_wf(values.push(value)) == (values_wf(values) && value.wf()),
{
    assert(values.push(value).drop_last() =~= values);
    assert(values.push(value).last() == value);
}

/// Returns copies of values.
pub fn copy_values(values: &Vec<Value>) -> (copies: Vec<Value>)
    ensures
        value_views(copies@) == value_views(values@),
        copies@.len() == values@.len(),
        values_wf(values@) ==> values_wf(copies@),
    decreases *values, 0nat,
{
    let mut copies: Vec<Value> = Vec::with_capacity(values.len());
    let mut i: usize = 0;
    proof {
        lemma_values_wf(values@);
    }
    while i < values.len()
        invariant
            0 <= i <= values.len(),
            copies@.len() == i,
            forall|k: int| 0 <= k < i ==> (#[trigger] copies@[k])@ == values@[k]@,
            forall|k: int| 0 <= k < i ==> (values@[k].wf() ==> (#[trigger] copies@[k]).wf()),
        decreases values.len() - i,
    {
        copies.push(values[i].clone());
        i += 1;
    }
    proof {
        lemma_value_views(copies@);
        lemma_value_views(values@);
        lemma_values_wf(copies@);
        assert(value_views(copies@) =~= value_views(values@));
    }
    copies
}

/// Returns copies of the entries of a map.
pub fn copy_entries(entries: &Vec<(Value, Value)>) -> (copies: Vec<(Value, Value)>)
    ensures
        entry_views(copies@) == entry_views(entries@),
        entries_wf(entries@) ==> entries_wf(copies@),
    decreases *entries, 0nat,
{
    let mut copies: Vec<(Value, Value)> = Vec::with_capacity(entries.len());
    let mut i: usize = 0;
    proof {
        lemma_entries_wf(entries@);
    }
    while i < entries.len()
        invariant
            0 <= i <= entries.len(),
            copies@.len() == i,
            forall|k: int|
                0 <= k < i ==> (#[trigger] copies@[k]).0@ == entries@[k].0@ && copies@[k].1@
                    == entries@[k].1@,
            forall|k: int|
                0 <= k < i ==> (entries@[k].0.wf() && entries@[k].1.wf() ==> (
                #[trigger] copies@[k]).0.wf() && copies@[k].1.wf()),
        decreases entries.len() - i,
    {
        let key = entries[i].0.clone();
        let value = entries[i].1.clone();
        copies.push((key, value));
        i += 1;
    }
    proof {
        lemma_entry_views(copies@);
        lemma_entry_views(entries@);
        lemma_entries_wf(copies@);
        assert(entry_views(copies@) =~= entry_views(entries@));
    }
    copies
}

impl Clone for Value {
    /// Returns a copy of the value: a value with the same view, well formed where
    /// this one is.
    fn clone(&self) -> (copy: Self)
        ensures
            copy@ == self@,
            self.wf() ==> copy.wf(),
            copy.kind_of() == self.kind_of(),
        decreases *self, 1nat,
    {
        match self {
            Value::Bool(v) => Value::Bool(*v),
            Value::U8(v) => Value::U8(*v),
            Value::I8(v) => Value::I8(*v),
            Value::U16(v) => Value::U16(*v),
            Value::I16(v) => Value::I16(*v),
            Value::U32(v) => Value::U32(*v),
            Value::I32(v) => Value::I32(*v),
            Value::U64(v) => Value::U64(*v),
            Value::I64(v) => Value::I64(*v),
            Value::F32(v) => Value::F32(*v),
            Value::F64(v) => Value::F64(*v),
            Value::Date(v) => Value::Date(*v),
            Value::Time(v) => Value::Time(*v),
            Value::Timestamp(v) => Value::Timestamp(*v),
            Value::Decimal(v) => Value::Decimal(
                match v {
                    Decimal::Int32 { value, precision, scale } => Decimal::Int32 {
                        value: *value,
                        precision: *precision,
                        scale: *scale,
                    },
                    Decimal::Int64 { value, precision, scale } => Decimal::Int64 {
                        value: *value,
                        precision: *precision,
                        scale: *scale,
                    },
                    Decimal::Bytes { value, precision, scale } => Decimal::Bytes {
                        value: copy_bytes(value),
                        precision: *precision,
                        scale: *scale,
                    },
                },
            ),
            Value::ByteArray(v) => Value::ByteArray(copy_bytes(v)),
            Value::Bson(v) => Value::Bson(Bson(copy_bytes(&v.0))),
            Value::String(v) => Value::String(v.clone()),
            Value::Json(v) => Value::Json(Json(v.0.clone())),
            Value::Enum(v) => Value::Enum(Enum(v.0.clone())),
            Value::List(v) => Value::List(List(copy_values(&v.0))),
            Value::Mapping(v) => Value::Mapping(Mapping(copy_entries(&v.0))),
            Value::Group(v) => Value::Group(Group(copy_values(&v.0), share_index(&v.1))),
            Value::Option(None) => Value::Option(None),
            Value::Option(Some(v)) => {
                let inner: &Value = v;
                Value::Option(Some(Box::new(inner.clone())))
            },
        }
    }
}

impl Value {
    /// Whether the value is well formed.
    pub fn is_wf(&self) -> (b: bool)
        ensures
            b == self.wf(),
        decreases self,
    {
        match self {
            Value::List(list) => {
                proof {
                    lemma_values_wf(list.0@);
                }
                let mut i: usize = 0;
                while i < list.0.len()
                    invariant
                        0 <= i <= list.0.len(),
                        self matches Value::List(l) && l == list,
                        forall|k: int| 0 <= k < i ==> (#[trigger] list.0@[k]).wf(),
                    decreases list.0.len() - i,
                {
                    if !list.0[i].is_wf() {
                        proof {
                            lemma_values_wf(list.0@);
                        }
                        return false;
                    }
                    i += 1;
                }
                true
            },
            Value::Mapping(map) => {
                proof {
                    lemma_entries_wf(map.0@);
                }
                let mut i: usize = 0;
                while i < map.0.len()
                    invariant
                        0 <= i <= map.0.len(),
                        self matches Value::Mapping(m) && m == map,
                        forall|k: int|
                            0 <= k < i ==> (#[trigger] map.0@[k]).0.wf() && map.0@[k].1.wf(),
                    decreases map.0.len() - i,
                {
                    if !map.0[i].0.is_wf() || !map.0[i].1.is_wf() {
                        proof {
                            lemma_entries_wf(map.0@);
                        }
                        return false;
                    }
                    i += 1;
                }
                true
            },
            Value::Group(group) => {
                proof {
                    lemma_values_wf(group.0@);
                }
                let mut i: usize = 0;
                while i < group.0.len()
                    invariant
                        0 <= i <= group.0.len(),
                        self matches Value::Group(g) && g == group,
                        forall|k: int| 0 <= k < i ==> (#[trigger] group.0@[k]).wf(),
                    decreases group.0.len() - i,
                {
                    if !group.0[i].is_wf() {
                        proof {
                            lemma_values_wf(group.0@);
                        }
                        return false;
                    }
                    i += 1;
                }
                index_is_consistent(&group.1, group.0.len())
            },
            Value::Option(Some(inner)) => {
                let nested = match &**inner {
                    Value::Option(_) => true,
                    _ => false,
                };
                inner.is_wf() && !nested
            },
            _ => true,
        }
    }
}

} // verus!
