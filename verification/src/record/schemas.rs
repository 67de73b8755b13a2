//! Logical schemas: what shape of value a reader produces. A schema is a tree; the
//! primitive kinds are its leaves.

use crate::record::index::{index_clone, index_entries, index_is_consistent, indexes};
use fxhash::FxBuildHasher;
use linked_hash_map::LinkedHashMap;
use vstd::prelude::*;

verus! {

/// Schema of `bool`.
#[derive(Clone, Copy, Debug, PartialEq, Eq, Structural)]
pub struct BoolSchema;

/// Schema of `u8`.
#[derive(Clone, Copy, Debug, PartialEq, Eq, Structural)]
pub struct U8Schema;

/// Schema of `i8`.
#[derive(Clone, Copy, Debug, PartialEq, Eq, Structural)]
pub struct I8Schema;

/// Schema of `u16`.
#[derive(Clone, Copy, Debug, PartialEq, Eq, Structural)]
pub struct U16Schema;

/// Schema of `i16`.
#[derive(Clone, Copy, Debug, PartialEq, Eq, Structural)]
pub struct I16Schema;

/// Schema of `u32`.
#[derive(Clone, Copy, Debug, PartialEq, Eq, Structural)]
pub struct U32Schema;

/// Schema of `i32`.
#[derive(Clone, Copy, Debug, PartialEq, Eq, Structural)]
pub struct I32Schema;

/// Schema of `u64`.
#[derive(Clone, Copy, Debug, PartialEq, Eq, Structural)]
pub struct U64Schema;

/// Schema of `i64`.
#[derive(Clone, Copy, Debug, PartialEq, Eq, Structural)]
pub struct I64Schema;

/// Schema of a 32-bit floating point number.
#[derive(Clone, Copy, Debug, PartialEq, Eq, Structural)]
pub struct F32Schema;

/// Schema of a 64-bit floating point number.
#[derive(Clone, Copy, Debug, PartialEq, Eq, Structural)]
pub struct F64Schema;

/// Schema of a date.
#[derive(Clone, Copy, Debug, PartialEq, Eq, Structural)]
pub struct DateSchema;

/// Schema of a time of day, by the unit in which the column counts.
#[derive(Clone, Copy, Debug, PartialEq, Eq, Structural)]
pub enum TimeSchema {
    Millis,
    Micros,
}

/// Schema of a timestamp, by the way in which the column holds it.
#[derive(Clone, Copy, Debug, PartialEq, Eq, Structural)]
pub enum TimestampSchema {
    Int96,
    Millis,
    Micros,
}

/// Schema of a byte array; the length where the column is of fixed length.
#[derive(Clone, Copy, Debug, PartialEq, Eq, Structural)]
pub struct ByteArraySchema(pub Option<u32>);

/// Schema of a decimal, by the column type that backs it.
#[derive(Clone, Copy, Debug, PartialEq, Eq, Structural)]
pub enum DecimalSchema {
    Int32 { precision: u32, scale: u32 },
    Int64 { precision: u32, scale: u32 },
    Array { byte_array_schema: ByteArraySchema, precision: u32, scale: u32 },
}

/// Schema of a BSON document.
#[derive(Clone, Copy, Debug, PartialEq, Eq, Structural)]
pub struct BsonSchema(pub ByteArraySchema);

/// Schema of a character string.
#[derive(Clone, Copy, Debug, PartialEq, Eq, Structural)]
pub struct StringSchema(pub ByteArraySchema);

/// Schema of a JSON text.
#[derive(Clone, Copy, Debug, PartialEq, Eq, Structural)]
pub struct JsonSchema(pub StringSchema);

/// Schema of an enumeration's name.
#[derive(Clone, Copy, Debug, PartialEq, Eq, Structural)]
pub struct EnumSchema(pub StringSchema);

/// How a list is laid out in the file, with the names that its wrappers have there.
#[derive(Clone, Debug)]
pub enum ListSchemaType {
    /// Three levels: a group annotated as list, a repeated group, the element. A name
    /// is held only where it differs from `list` or `element`.
    List(Option<String>, Option<String>),
    /// The older two levels: the repeated child is itself the element; its name.
    ListCompat(String),
    /// A repeated field with no wrapper at all.
    Repeated,
}

/// Schema of a list: its elements' schema and its layout.
#[derive(Clone, Debug)]
pub struct ListSchema<T>(pub T, pub ListSchemaType);

/// Schema of a map: the schemas of keys and values, then the names of the repeated
/// group, of the key and of the value, each held only where it differs from
/// `key_value`, `key` or `value`.
#[derive(Clone, Debug)]
pub struct MapSchema<K, V>(
    pub K,
    pub V,
    pub Option<String>,
    pub Option<String>,
    pub Option<String>,
);

/// Schema of an optional value.
#[derive(Clone, Debug)]
pub struct OptionSchema<T>(pub T);

/// Schema of a value held behind a box: that of the value.
#[derive(Clone, Debug)]
pub struct BoxSchema<T>(pub T);

/// Schema of a group: the schemas of its fields in declaration order, and the index
/// of their names.
#[derive(Debug)]
pub struct GroupSchema(pub Vec<ValueSchema>, pub LinkedHashMap<String, usize, FxBuildHasher>);

/// Schema of any value.
#[derive(Debug)]
pub enum ValueSchema {
    Bool(BoolSchema),
    U8(U8Schema),
    I8(I8Schema),
    U16(U16Schema),
    I16(I16Schema),
    U32(U32Schema),
    I32(I32Schema),
    U64(U64Schema),
    I64(I64Schema),
    F32(F32Schema),
    F64(F64Schema),
    Date(DateSchema),
    Time(TimeSchema),
    Timestamp(TimestampSchema),
    Decimal(DecimalSchema),
    ByteArray(ByteArraySchema),
    Bson(BsonSchema),
    String(StringSchema),
    Json(JsonSchema),
    Enum(EnumSchema),
    List(Box<ListSchema<ValueSchema>>),
    Mapping(Box<MapSchema<ValueSchema, ValueSchema>>),
    Group(GroupSchema),
    Option(Box<OptionSchema<ValueSchema>>),
}

/// The layout of a list, with names as sequences of characters.
pub enum ListLayout {
    List(Option<Seq<char>>, Option<Seq<char>>),
    ListCompat(Seq<char>),
    Repeated,
}

/// What a schema says: the tree of kinds, with names as sequences of characters and a
/// group as the sequence of its named fields.
pub enum SchemaView {
    Bool,
    U8,
    I8,
    U16,
    I16,
    U32,
    I32,
    U64,
    I64,
    F32,
    F64,
    Date,
    Time(TimeSchema),
    Timestamp(TimestampSchema),
    Decimal(DecimalSchema),
    ByteArray(Option<u32>),
    Bson(Option<u32>),
    String(Option<u32>),
    Json(Option<u32>),
    Enum(Option<u32>),
    List(Box<SchemaView>, ListLayout),
    Mapping {
        key: Box<SchemaView>,
        value: Box<SchemaView>,
        key_value_name: Option<Seq<char>>,
        key_name: Option<Seq<char>>,
        value_name: Option<Seq<char>>,
    },
    Group(Seq<(Seq<char>, SchemaView)>),
    Option(Box<SchemaView>),
}

/// A name that may be absent, as a sequence of characters.
pub open spec fn name_view(name: Option<String>) -> Option<Seq<char>> {
    match name {
        Some(s) => Some(s@),
        None => None,
    }
}

impl View for ListSchemaType {
    type V = ListLayout;

    open spec fn view(&self) -> ListLayout {
        match *self {
            ListSchemaType::List(list_name, element_name) => ListLayout::List(
                name_view(list_name),
                name_view(element_name),
            ),
            ListSchemaType::ListCompat(element_name) => ListLayout::ListCompat(element_name@),
            ListSchemaType::Repeated => ListLayout::Repeated,
        }
    }
}

/// The views of `fields`, each under the name that `entries` holds at its position.
pub open spec fn named_views(fields: Seq<ValueSchema>, entries: Seq<(Seq<char>, usize)>) -> Seq<
    (Seq<char>, SchemaView),
>
    decreases fields,
{
    if fields.len() == 0 {
        Seq::empty()
    } else {
        named_views(fields.drop_last(), entries).push(
            (entries[fields.len() - 1].0, fields.last()@),
        )
    }
}

/// Whether every schema of `fields` is well formed.
pub open spec fn all_wf(fields: Seq<ValueSchema>) -> bool
    decreases fields,
{
    fields.len() == 0 || (all_wf(fields.drop_last()) && fields.last().wf())
}

impl View for ValueSchema {
    type V = SchemaView;

    open spec fn view(&self) -> SchemaView
        decreases *self,
    {
        match *self {
            ValueSchema::Bool(_) => SchemaView::Bool,
            ValueSchema::U8(_) => SchemaView::U8,
            ValueSchema::I8(_) => SchemaView::I8,
            ValueSchema::U16(_) => SchemaView::U16,
            ValueSchema::I16(_) => SchemaView::I16,
            ValueSchema::U32(_) => SchemaView::U32,
            ValueSchema::I32(_) => SchemaView::I32,
            ValueSchema::U64(_) => SchemaView::U64,
            ValueSchema::I64(_) => SchemaView::I64,
            ValueSchema::F32(_) => SchemaView::F32,
            ValueSchema::F64(_) => SchemaView::F64,
            ValueSchema::Date(_) => SchemaView::Date,
            ValueSchema::Time(t) => SchemaView::Time(t),
            ValueSchema::Timestamp(t) => SchemaView::Timestamp(t),
            ValueSchema::Decimal(d) => SchemaView::Decimal(d),
            ValueSchema::ByteArray(b) => SchemaView::ByteArray(b.0),
            ValueSchema::Bson(b) => SchemaView::Bson(b.0.0),
            ValueSchema::String(s) => SchemaView::String(s.0.0),
            ValueSchema::Json(j) => SchemaView::Json(j.0.0.0),
            ValueSchema::Enum(e) => SchemaView::Enum(e.0.0.0),
            ValueSchema::List(list) => SchemaView::List(Box::new(list.0@), list.1@),
            ValueSchema::Mapping(map) => SchemaView::Mapping {
                key: Box::new(map.0@),
                value: Box::new(map.1@),
                key_value_name: name_view(map.2),
                key_name: name_view(map.3),
                value_name: name_view(map.4),
            },
            ValueSchema::Group(group) => SchemaView::Group(
                named_views(group.0@, index_entries(group.1)),
            ),
            ValueSchema::Option(inner) => SchemaView::Option(Box::new(inner.0@)),
        }
    }
}

impl ValueSchema {
    /// Whether the schema is well formed: an option holds no option directly, and the
    /// index of every group lists the group's fields, in order, under distinct names.
    pub open spec fn wf(self) -> bool
        decreases self,
    {
        match self {
            ValueSchema::List(list) => list.0.wf(),
            ValueSchema::Mapping(map) => map.0.wf() && map.1.wf(),
            ValueSchema::Group(group) => all_wf(group.0@) && indexes(
                index_entries(group.1),
                group.0@.len(),
            ),
            ValueSchema::Option(inner) => inner.0.wf() && !(inner.0 is Option),
            _ => true,
        }
    }
}

impl GroupSchema {
    /// Whether the group's index lists its fields and every field is well formed.
    pub open spec fn wf(self) -> bool {
        ValueSchema::Group(self).wf()
    }

    /// The group's fields by name, in declaration order.
    pub open spec fn view(self) -> Seq<(Seq<char>, SchemaView)> {
        named_views(self.0@, index_entries(self.1))
    }
}

/// What [`named_views`] holds at each position.
pub proof fn lemma_named_views(fields: Seq<ValueSchema>, entries: Seq<(Seq<char>, usize)>)
    ensures
        named_views(fields, entries).len() == fields.len(),
        forall|i: int|
            0 <= i < fields.len() ==> #[trigger] named_views(fields, entries)[i] == (
                entries[i].0,
                fields[i]@,
            ),
    decreases fields.len(),
{
    if fields.len() > 0 {
        lemma_named_views(fields.drop_last(), entries);
        assert(named_views(fields, entries) == named_views(fields.drop_last(), entries).push(
            (entries[fields.len() - 1].0, fields.last()@),
        ));
        assert forall|i: int| 0 <= i < fields.len() implies #[trigger] named_views(
            fields,
            entries,
        )[i] == (entries[i].0, fields[i]@) by {
            if i < fields.len() - 1 {
                assert(named_views(fields.drop_last(), entries)[i] == (
                    entries[i].0,
                    fields.drop_last()[i]@,
                ));
            }
        }
    }
}

/// All schemas of a sequence are well formed exactly when each one is.
pub proof fn lemma_all_wf(fields: Seq<ValueSchema>)
    ensures
        all_wf(fields) <==> forall|i: int| 0 <= i < fields.len() ==> (#[trigger] fields[i]).wf(),
    decreases fields.len(),
{
    if fields.len() > 0 {
        lemma_all_wf(fields.drop_last());
        if all_wf(fields) {
            assert forall|i: int| 0 <= i < fields.len() implies (#[trigger] fields[i]).wf() by {
                if i < fields.len() - 1 {
                    assert(fields.drop_last()[i] == fields[i]);
                }
            }
        } else if forall|i: int| 0 <= i < fields.len() ==> (#[trigger] fields[i]).wf() {
            assert forall|i: int| 0 <= i < fields.drop_last().len() implies (
            #[trigger] fields.drop_last()[i]).wf() by {
                assert(fields.drop_last()[i] == fields[i]);
            }
        }
    }
}

/// Returns a copy of a name that may be absent.
fn copy_name(name: &Option<String>) -> (copy: Option<String>)
    ensures
        name_view(copy) == name_view(*name),
{
    match name {
        Some(n) => Some(n.clone()),
        None => None,
    }
}

/// Returns copies of schemas.
pub fn copy_schemas(schemas: &Vec<ValueSchema>) -> (copies: Vec<ValueSchema>)
    ensures
        copies@.len() == schemas@.len(),
        forall|k: int| 0 <= k < copies@.len() ==> (#[trigger] copies@[k])@ == schemas@[k]@,
        all_wf(schemas@) ==> all_wf(copies@),
    decreases *schemas, 0nat,
{
    let mut copies: Vec<ValueSchema> = Vec::with_capacity(schemas.len());
    let mut i: usize = 0;
    proof {
        lemma_all_wf(schemas@);
    }
    while i < schemas.len()
        invariant
            0 <= i <= schemas.len(),
            copies@.len() == i,
            forall|k: int| 0 <= k < i ==> (#[trigger] copies@[k])@ == schemas@[k]@,
            forall|k: int| 0 <= k < i ==> (schemas@[k].wf() ==> (#[trigger] copies@[k]).wf()),
        decreases schemas.len() - i,
    {
        copies.push(schemas[i].clone());
        i += 1;
    }
    proof {
        lemma_all_wf(copies@);
    }
    copies
}

impl Clone for ValueSchema {
    /// Returns a copy of the schema: a schema with the same view, well formed where
    /// this one is.
    fn clone(&self) -> (copy: Self)
        ensures
            copy@ == self@,
            self.wf() ==> copy.wf(),
        decreases *self, 1nat,
    {
        match self {
            ValueSchema::Bool(s) => ValueSchema::Bool(*s),
            ValueSchema::U8(s) => ValueSchema::U8(*s),
            ValueSchema::I8(s) => ValueSchema::I8(*s),
            ValueSchema::U16(s) => ValueSchema::U16(*s),
            ValueSchema::I16(s) => ValueSchema::I16(*s),
            ValueSchema::U32(s) => ValueSchema::U32(*s),
            ValueSchema::I32(s) => ValueSchema::I32(*s),
            ValueSchema::U64(s) => ValueSchema::U64(*s),
            ValueSchema::I64(s) => ValueSchema::I64(*s),
            ValueSchema::F32(s) => ValueSchema::F32(*s),
            ValueSchema::F64(s) => ValueSchema::F64(*s),
            ValueSchema::Date(s) => ValueSchema::Date(*s),
            ValueSchema::Time(s) => ValueSchema::Time(*s),
            ValueSchema::Timestamp(s) => ValueSchema::Timestamp(*s),
            ValueSchema::Decimal(s) => ValueSchema::Decimal(*s),
            ValueSchema::ByteArray(s) => ValueSchema::ByteArray(*s),
            ValueSchema::Bson(s) => ValueSchema::Bson(*s),
            ValueSchema::String(s) => ValueSchema::String(*s),
            ValueSchema::Json(s) => ValueSchema::Json(*s),
            ValueSchema::Enum(s) => ValueSchema::Enum(*s),
            ValueSchema::List(list) => {
                let layout = match &list.1 {
                    ListSchemaType::List(list_name, element_name) => ListSchemaType::List(
                        copy_name(list_name),
                        copy_name(element_name),
                    ),
                    ListSchemaType::ListCompat(element_name) => ListSchemaType::ListCompat(
                        element_name.clone(),
                    ),
                    ListSchemaType::Repeated => ListSchemaType::Repeated,
                };
                ValueSchema::List(Box::new(ListSchema(list.0.clone(), layout)))
            },
            ValueSchema::Mapping(map) => ValueSchema::Mapping(
                Box::new(
                    MapSchema(
                        map.0.clone(),
                        map.1.clone(),
                        copy_name(&map.2),
                        copy_name(&map.3),
                        copy_name(&map.4),
                    ),
                ),
            ),
            ValueSchema::Group(group) => {
                let fields = copy_schemas(&group.0);
                let index = index_clone(&group.1);
                proof {
                    lemma_named_views(fields@, index_entries(index));
                    lemma_named_views(group.0@, index_entries(group.1));
                    assert(named_views(fields@, index_entries(index)) =~= named_views(
                        group.0@,
                        index_entries(group.1),
                    ));
                }
                ValueSchema::Group(GroupSchema(fields, index))
            },
            ValueSchema::Option(inner) => {
                let copy = inner.0.clone();
                ValueSchema::Option(Box::new(OptionSchema(copy)))
            },
        }
    }
}

impl ValueSchema {
    /// Whether the schema is well formed.
    pub fn is_wf(&self) -> (b: bool)
        ensures
            b == self.wf(),
        decreases self,
    {
        match self {
            ValueSchema::List(list) => list.0.is_wf(),
            ValueSchema::Mapping(map) => map.0.is_wf() && map.1.is_wf(),
            ValueSchema::Group(group) => {
                proof {
                    lemma_all_wf(group.0@);
                }
                let mut i: usize = 0;
                while i < group.0.len()
                    invariant
                        0 <= i <= group.0.len(),
                        self matches ValueSchema::Group(g) && g == group,
                        forall|k: int| 0 <= k < i ==> (#[trigger] group.0@[k]).wf(),
                    decreases group.0.len() - i,
                {
                    if !group.0[i].is_wf() {
                        proof {
                            lemma_all_wf(group.0@);
                        }
                        return false;
                    }
                    i += 1;
                }
                index_is_consistent(&group.1, group.0.len())
            },
            ValueSchema::Option(inner) => {
                let nested = match &inner.0 {
                    ValueSchema::Option(_) => true,
                    _ => false,
                };
                inner.0.is_wf() && !nested
            },
            _ => true,
        }
    }
}

} // verus!
