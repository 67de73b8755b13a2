//! Schema inference, as mathematics: which logical schema a node of the type tree
//! stands for. The functions that compute it are `Value::parse`, `parse_list`,
//! `parse_map`, `List::parse` and `Group::parse`; their contracts refer to this file.

use crate::basic::{LogicalType, PhysicalType, Repetition};
use crate::errors::ErrorView;
use crate::record::schemas::{
    ByteArraySchema, DecimalSchema, ListLayout, SchemaView, TimeSchema, TimestampSchema,
};
use crate::schema::Type;
use vstd::prelude::*;

verus! {

/// The length that a column of fixed length declares; none for other columns.
pub open spec fn fixed_length(physical: PhysicalType, type_length: i32) -> Option<u32> {
    if physical == PhysicalType::FixedLenByteArray {
        Some(type_length as u32)
    } else {
        None
    }
}

/// The schema of a primitive column, by its physical type and annotation. An
/// annotation that says nothing for the physical type leaves the schema that the
/// physical type has alone. An interval has no schema.
pub open spec fn primitive_schema(
    physical: PhysicalType,
    logical: LogicalType,
    type_length: i32,
    precision: i32,
    scale: i32,
) -> Result<SchemaView, ErrorView> {
    let length = fixed_length(physical, type_length);
    match physical {
        PhysicalType::Boolean => Ok(SchemaView::Bool),
        PhysicalType::Int32 => Ok(
            match logical {
                LogicalType::Uint8 => SchemaView::U8,
                LogicalType::Int8 => SchemaView::I8,
                LogicalType::Uint16 => SchemaView::U16,
                LogicalType::Int16 => SchemaView::I16,
                LogicalType::Uint32 => SchemaView::U32,
                LogicalType::Date => SchemaView::Date,
                LogicalType::TimeMillis => SchemaView::Time(TimeSchema::Millis),
                LogicalType::Decimal => SchemaView::Decimal(
                    DecimalSchema::Int32 { precision: precision as u32, scale: scale as u32 },
                ),
                _ => SchemaView::I32,
            },
        ),
        PhysicalType::Int64 => Ok(
            match logical {
                LogicalType::Uint64 => SchemaView::U64,
                LogicalType::TimeMicros => SchemaView::Time(TimeSchema::Micros),
                LogicalType::TimestampMillis => SchemaView::Timestamp(TimestampSchema::Millis),
                LogicalType::TimestampMicros => SchemaView::Timestamp(TimestampSchema::Micros),
                LogicalType::Decimal => SchemaView::Decimal(
                    DecimalSchema::Int64 { precision: precision as u32, scale: scale as u32 },
                ),
                _ => SchemaView::I64,
            },
        ),
        PhysicalType::Int96 => Ok(SchemaView::Timestamp(TimestampSchema::Int96)),
        PhysicalType::Float => Ok(SchemaView::F32),
        PhysicalType::Double => Ok(SchemaView::F64),
        PhysicalType::ByteArray | PhysicalType::FixedLenByteArray => match logical {
            LogicalType::Utf8 => Ok(SchemaView::String(length)),
            LogicalType::Json => Ok(SchemaView::Json(length)),
            LogicalType::Enum => Ok(SchemaView::Enum(length)),
            LogicalType::Bson => Ok(SchemaView::Bson(length)),
            LogicalType::Decimal => Ok(
                SchemaView::Decimal(
                    DecimalSchema::Array {
                        byte_array_schema: ByteArraySchema(length),
                        precision: precision as u32,
                        scale: scale as u32,
                    },
                ),
            ),
            LogicalType::Interval => Err(
                ErrorView::UnsupportedAnnotation { name: LogicalType::Interval },
            ),
            _ => Ok(SchemaView::ByteArray(length)),
        },
    }
}

/// Whether a node has the outer shape of a list: a group annotated as list whose one
/// child is repeated.
pub open spec fn is_list_wrapper(ty: Type) -> bool {
    &&& ty is GroupType
    &&& ty.info().logical_type == LogicalType::List
    &&& ty.children().len() == 1
    &&& ty.children()[0].info().repetition == Some(Repetition::Repeated)
}

/// Whether a list wrapper has three levels: its repeated child is a group with one
/// field and bears neither the name `array` nor the wrapper's name followed by
/// `_tuple`. Otherwise the repeated child is itself the element.
pub open spec fn is_three_level(ty: Type) -> bool {
    let child = ty.children()[0];
    &&& child is GroupType
    &&& child.children().len() == 1
    &&& child.name_view() != "array"@
    &&& child.name_view() != ty.name_view() + "_tuple"@
}

/// Whether a node has the shape of a map: a group annotated as map whose one child is
/// a repeated group of two fields, the first of them required.
pub open spec fn is_map_wrapper(ty: Type) -> bool {
    &&& ty is GroupType
    &&& (ty.info().logical_type == LogicalType::MapAnnotated || ty.info().logical_type
        == LogicalType::MapKeyValue)
    &&& ty.children().len() == 1
    &&& ty.children()[0] is GroupType
    &&& ty.children()[0].info().repetition == Some(Repetition::Repeated)
    &&& ty.children()[0].children().len() == 2
    &&& ty.children()[0].children()[0].info().repetition == Some(Repetition::Required)
}

/// A wrapper's name as a schema records it: absent where it is the usual one.
pub open spec fn recorded_name(name: Seq<char>, usual: Seq<char>) -> Option<Seq<char>> {
    if name == usual {
        None
    } else {
        Some(name)
    }
}

/// The schema with the wrapping that a repetition asks for: an option around an
/// optional field, an unwrapped list around a repeated one, nothing otherwise.
pub open spec fn lift(core: SchemaView, repetition: Option<Repetition>) -> SchemaView {
    match repetition {
        Some(Repetition::Optional) => SchemaView::Option(Box::new(core)),
        Some(Repetition::Repeated) => SchemaView::List(Box::new(core), ListLayout::Repeated),
        _ => core,
    }
}

/// The list that a node stands for: the schema of its elements and its layout. The
/// element of a three-level list is taken with the repetition it declares; the
/// repeated child of a two-level list is the element as if it were required.
pub open spec fn infer_list(ty: Type) -> Result<(SchemaView, ListLayout), ErrorView>
    decreases ty, 0nat,
{
    if !is_list_wrapper(ty) {
        Err(ErrorView::MalformedListWrapper)
    } else {
        let child = ty.children()[0];
        if is_three_level(ty) {
            let element = child.children()[0];
            match infer(element, element.info().repetition) {
                Ok(schema) => Ok(
                    (
                        schema,
                        ListLayout::List(
                            recorded_name(child.name_view(), "list"@),
                            recorded_name(element.name_view(), "element"@),
                        ),
                    ),
                ),
                Err(e) => Err(e),
            }
        } else {
            match infer(child, Some(Repetition::Required)) {
                Ok(schema) => Ok((schema, ListLayout::ListCompat(child.name_view()))),
                Err(e) => Err(e),
            }
        }
    }
}

/// The map that a node stands for. The key and the value are each taken with the
/// repetition they declare.
pub open spec fn infer_map(ty: Type) -> Result<SchemaView, ErrorView>
    decreases ty, 0nat,
{
    if !is_map_wrapper(ty) {
        Err(ErrorView::MalformedMapWrapper)
    } else {
        let pair = ty.children()[0];
        let key = pair.children()[0];
        let value = pair.children()[1];
        match infer(key, key.info().repetition) {
            Err(e) => Err(e),
            Ok(key_schema) => match infer(value, value.info().repetition) {
                Err(e) => Err(e),
                Ok(value_schema) => Ok(
                    SchemaView::Mapping {
                        key: Box::new(key_schema),
                        value: Box::new(value_schema),
                        key_value_name: recorded_name(pair.name_view(), "key_value"@),
                        key_name: recorded_name(key.name_view(), "key"@),
                        value_name: recorded_name(value.name_view(), "value"@),
                    },
                ),
            },
        }
    }
}

/// The schemas of `fields` under their names, each taken with the repetition it
/// declares; the failure of the first field that has no schema.
pub open spec fn infer_fields(fields: Seq<Type>) -> Result<Seq<(Seq<char>, SchemaView)>, ErrorView>
    decreases fields, 0nat,
{
    if fields.len() == 0 {
        Ok(Seq::empty())
    } else {
        match infer_fields(fields.drop_last()) {
            Err(e) => Err(e),
            Ok(before) => match infer(fields.last(), fields.last().info().repetition) {
                Err(e) => Err(e),
                Ok(schema) => Ok(before.push((fields.last().name_view(), schema))),
            },
        }
    }
}

/// The shape of a node before its own repetition is looked at. A primitive that has a
/// repetition is a primitive schema. Otherwise the node is a list if it stands for
/// one, else a map if it stands for one, else a group if it is a group with at least
/// one field. Anything else has no shape.
pub open spec fn infer_core(ty: Type, repetition: Option<Repetition>) -> Result<
    SchemaView,
    ErrorView,
>
    decreases ty, 1nat,
{
    match ty {
        Type::PrimitiveType { basic_info, physical_type, type_length, scale, precision } => {
            if repetition is Some {
                primitive_schema(
                    physical_type,
                    basic_info.logical_type,
                    type_length,
                    precision,
                    scale,
                )
            } else {
                Err(ErrorView::ClassificationFailed { context: ty.name_view() })
            }
        },
        Type::GroupType { basic_info, fields } => match infer_list(ty) {
            Ok((element, layout)) => Ok(SchemaView::List(Box::new(element), layout)),
            Err(_) => match infer_map(ty) {
                Ok(map) => Ok(map),
                Err(_) => if fields@.len() > 0 {
                    match infer_fields(fields@) {
                        Ok(named) => Ok(SchemaView::Group(named)),
                        Err(e) => Err(e),
                    }
                } else {
                    Err(ErrorView::ClassificationFailed { context: ty.name_view() })
                },
            },
        },
    }
}

/// The schema that a node stands for when it occurs with `repetition`; none is given
/// for the root of a tree.
pub open spec fn infer(ty: Type, repetition: Option<Repetition>) -> Result<SchemaView, ErrorView>
    decreases ty, 2nat,
{
    match infer_core(ty, repetition) {
        Ok(core) => Ok(lift(core, repetition)),
        Err(e) => Err(e),
    }
}

/// Where a field has no schema, the fields up to it and beyond have none, with the
/// same failure.
pub proof fn lemma_infer_fields_failure(fields: Seq<Type>, upto: int)
    requires
        0 <= upto <= fields.len(),
        infer_fields(fields.take(upto)) is Err,
    ensures
        infer_fields(fields) == infer_fields(fields.take(upto)),
    decreases fields.len() - upto,
{
    if upto < fields.len() {
        assert(fields.take(upto + 1).drop_last() == fields.take(upto));
        lemma_infer_fields_failure(fields, upto + 1);
    } else {
        assert(fields.take(upto) == fields);
    }
}

/// The schemas of one field more: those of the fields before it, then its own.
pub proof fn lemma_infer_fields_step(fields: Seq<Type>, upto: int)
    requires
        0 <= upto < fields.len(),
    ensures
        infer_fields(fields.take(upto + 1)) == match infer_fields(fields.take(upto)) {
            Err(e) => Err(e),
            Ok(before) => match infer(fields[upto], fields[upto].info().repetition) {
                Err(e) => Err(e),
                Ok(schema) => Ok(before.push((fields[upto].name_view(), schema))),
            },
        },
{
    assert(fields.take(upto + 1).drop_last() == fields.take(upto));
    assert(fields.take(upto + 1).last() == fields[upto]);
}

/// The list that a node stands for when a list is asked of it. A required node must
/// be a list wrapper. A repeated node is a list without wrapper, of elements with the
/// schema that the node has as a required one. A node of another repetition is no
/// list.
pub open spec fn infer_as_list(ty: Type, repetition: Option<Repetition>) -> Result<
    (SchemaView, ListLayout),
    ErrorView,
> {
    match repetition {
        Some(Repetition::Required) => infer_list(ty),
        Some(Repetition::Repeated) => match infer(ty, Some(Repetition::Required)) {
            Ok(element) => Ok((element, ListLayout::Repeated)),
            Err(e) => Err(e),
        },
        _ => Err(ErrorView::MalformedListWrapper),
    }
}

/// The fields that a node stands for when a group is asked of it: those of a required
/// group. Any other node is no group.
pub open spec fn infer_as_group(ty: Type, repetition: Option<Repetition>) -> Result<
    Seq<(Seq<char>, SchemaView)>,
    ErrorView,
> {
    if ty is GroupType && repetition == Some(Repetition::Required) {
        infer_fields(ty.children())
    } else {
        Err(ErrorView::ClassificationFailed { context: ty.name_view() })
    }
}

/// Whether every schema of `fields` is proper.
pub open spec fn all_proper(fields: Seq<(Seq<char>, SchemaView)>) -> bool
    decreases fields,
{
    fields.len() == 0 || (all_proper(fields.drop_last()) && proper(fields.last().1))
}

/// The names of named schemas, in order.
pub open spec fn field_names(fields: Seq<(Seq<char>, SchemaView)>) -> Seq<Seq<char>> {
    Seq::new(fields.len(), |i: int| fields[i].0)
}

/// Whether a schema keeps the rules of the model: no option holds an option
/// directly, and the fields of every group have distinct names.
pub open spec fn proper(schema: SchemaView) -> bool
    decreases schema,
{
    match schema {
        SchemaView::List(element, _) => proper(*element),
        SchemaView::Mapping { key, value, .. } => proper(*key) && proper(*value),
        SchemaView::Group(fields) => all_proper(fields) && crate::text::distinct(
            field_names(fields),
        ),
        SchemaView::Option(inner) => proper(*inner) && !(*inner is Option),
        _ => true,
    }
}

/// The shape of a node, before its repetition is applied, is never an option.
pub proof fn lemma_core_is_no_option(ty: Type, repetition: Option<Repetition>)
    ensures
        infer_core(ty, repetition) matches Ok(core) ==> !(core is Option),
{
}

/// Inference wraps by repetition. The schema of an optional field is an option, and
/// what it holds is not an option. The schema of a repeated field is an unwrapped
/// list. The schema of a required field, and of a root, is neither wrapped nor an
/// option.
pub proof fn lemma_repetition_wrapping(ty: Type, repetition: Option<Repetition>)
    ensures
        repetition == Some(Repetition::Optional) ==> (infer(ty, repetition) matches Ok(schema)
            ==> schema matches SchemaView::Option(inner) && !(*inner is Option) && infer_core(
            ty,
            repetition,
        ) == Ok::<SchemaView, ErrorView>(*inner)),
        repetition == Some(Repetition::Repeated) ==> (infer(ty, repetition) matches Ok(schema)
            ==> schema matches SchemaView::List(inner, layout) && layout == ListLayout::Repeated
            && infer_core(ty, repetition) == Ok::<SchemaView, ErrorView>(*inner)),
        repetition != Some(Repetition::Optional) && repetition != Some(Repetition::Repeated) ==> (
        infer(ty, repetition) matches Ok(schema) ==> !(schema is Option) && infer_core(
            ty,
            repetition,
        ) == Ok::<SchemaView, ErrorView>(schema)),
{
    lemma_core_is_no_option(ty, repetition);
}

/// The schemas of fields are as many as the fields, under the fields' names.
pub proof fn lemma_infer_fields_names(fields: Seq<Type>)
    ensures
        infer_fields(fields) matches Ok(named) ==> named.len() == fields.len() && field_names(
            named,
        ) == crate::schema::names_of(fields),
    decreases fields.len(),
{
    if fields.len() > 0 {
        lemma_infer_fields_names(fields.drop_last());
        if let Ok(named) = infer_fields(fields) {
            let before = infer_fields(fields.drop_last())->Ok_0;
            let schema = infer(fields.last(), fields.last().info().repetition)->Ok_0;
            assert(named == before.push((fields.last().name_view(), schema)));
            assert forall|i: int| 0 <= i < named.len() implies field_names(named)[i]
                == crate::schema::names_of(fields)[i] by {
                if i < fields.len() - 1 {
                    assert(field_names(before)[i] == crate::schema::names_of(
                        fields.drop_last(),
                    )[i]);
                }
            }
            assert(field_names(named) =~= crate::schema::names_of(fields));
        }
    }
}

/// Inference is total on the trees that the format accepts: a valid tree has a proper
/// schema, or inference fails because a node has no shape or bears an annotation
/// without a schema. It fails in no other way.
pub proof fn lemma_inference_total(ty: Type, repetition: Option<Repetition>)
    requires
        ty.valid(),
    ensures
        match infer(ty, repetition) {
            Ok(schema) => proper(schema),
            Err(e) => e is ClassificationFailed || e is UnsupportedAnnotation,
        },
    decreases ty, 2nat,
{
    crate::schema::lemma_children_valid(ty);
    lemma_core_is_no_option(ty, repetition);
    if ty is GroupType {
        lemma_infer_list_total(ty);
        lemma_infer_map_total(ty);
        lemma_infer_fields_total(ty.children());
        lemma_infer_fields_names(ty.children());
    }
    if let Ok(core) = infer_core(ty, repetition) {
        assert(proper(core));
        assert(proper(lift(core, repetition)));
    }
}

/// What [`lemma_inference_total`] says, of the list that a node stands for; here the
/// failure may also be that the node has not the shape of a list.
pub proof fn lemma_infer_list_total(ty: Type)
    requires
        ty.valid(),
    ensures
        match infer_list(ty) {
            Ok((element, _)) => proper(element),
            Err(e) => e is ClassificationFailed || e is UnsupportedAnnotation
                || e is MalformedListWrapper,
        },
    decreases ty, 0nat,
{
    if is_list_wrapper(ty) {
        crate::schema::lemma_children_valid(ty);
        let child = ty.children()[0];
        crate::schema::lemma_children_valid(child);
        if is_three_level(ty) {
            let element = child.children()[0];
            lemma_inference_total(element, element.info().repetition);
        } else {
            lemma_inference_total(child, Some(Repetition::Required));
        }
    }
}

/// What [`lemma_inference_total`] says, of the map that a node stands for; here the
/// failure may also be that the node has not the shape of a map.
pub proof fn lemma_infer_map_total(ty: Type)
    requires
        ty.valid(),
    ensures
        match infer_map(ty) {
            Ok(map) => proper(map) && map is Mapping,
            Err(e) => e is ClassificationFailed || e is UnsupportedAnnotation
                || e is MalformedMapWrapper,
        },
    decreases ty, 0nat,
{
    if is_map_wrapper(ty) {
        crate::schema::lemma_children_valid(ty);
        let pair = ty.children()[0];
        crate::schema::lemma_children_valid(pair);
        let key = pair.children()[0];
        let value = pair.children()[1];
        lemma_inference_total(key, key.info().repetition);
        lemma_inference_total(value, value.info().repetition);
    }
}

/// What [`lemma_inference_total`] says, of the fields of a group.
pub proof fn lemma_infer_fields_total(fields: Seq<Type>)
    requires
        forall|i: int| 0 <= i < fields.len() ==> (#[trigger] fields[i]).valid(),
    ensures
        match infer_fields(fields) {
            Ok(named) => all_proper(named),
            Err(e) => e is ClassificationFailed || e is UnsupportedAnnotation,
        },
    decreases fields, 0nat,
{
    if fields.len() > 0 {
        assert forall|i: int| 0 <= i < fields.drop_last().len() implies (
        #[trigger] fields.drop_last()[i]).valid() by {
            assert(fields[i].valid());
        }
        lemma_infer_fields_total(fields.drop_last());
        assert(fields.last() == fields[fields.len() - 1]);
        lemma_inference_total(fields.last(), fields.last().info().repetition);
        if let Ok(named) = infer_fields(fields) {
            assert(named.drop_last() == infer_fields(fields.drop_last())->Ok_0);
        }
    }
}

} // verus!
