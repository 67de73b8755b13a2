//! The file's own description of its columns: a tree of primitive leaves and groups.

use crate::basic::{LogicalType, PhysicalType, Repetition};
use crate::record::reader::{copy_path, path_view, paths_view};
use crate::text::{distinct, owned, str_eq};
use vstd::prelude::*;

verus! {

/// What every node of the type tree carries.
#[derive(Clone, Debug)]
pub struct BasicTypeInfo {
    pub name: String,
    /// Absent only at the root of a tree.
    pub repetition: Option<Repetition>,
    pub logical_type: LogicalType,
}

/// A node of the file's type tree.
#[derive(Debug)]
pub enum Type {
    PrimitiveType {
        basic_info: BasicTypeInfo,
        physical_type: PhysicalType,
        type_length: i32,
        scale: i32,
        precision: i32,
    },
    GroupType { basic_info: BasicTypeInfo, fields: Vec<Type> },
}

/// Whether a column of this physical type can back a decimal.
pub open spec fn holds_decimal(physical_type: PhysicalType) -> bool {
    physical_type == PhysicalType::Int32 || physical_type == PhysicalType::Int64 || physical_type
        == PhysicalType::ByteArray || physical_type == PhysicalType::FixedLenByteArray
}

/// The names of `fields`, in order.
pub open spec fn names_of(fields: Seq<Type>) -> Seq<Seq<char>> {
    Seq::new(fields.len(), |i: int| fields[i].name_view())
}

impl Type {
    /// The node's name.
    pub open spec fn name_view(self) -> Seq<char> {
        self.info().name@
    }

    /// The node's basic information.
    pub open spec fn info(self) -> BasicTypeInfo {
        match self {
            Type::PrimitiveType { basic_info, .. } => basic_info,
            Type::GroupType { basic_info, .. } => basic_info,
        }
    }

    /// The node's children; none for a primitive.
    pub open spec fn children(self) -> Seq<Type> {
        match self {
            Type::PrimitiveType { .. } => Seq::empty(),
            Type::GroupType { fields, .. } => fields@,
        }
    }

    /// Whether the numbers that a primitive declares can be used: a fixed length is not
    /// negative, and neither are the precision and scale of a decimal.
    pub open spec fn numbers_valid(self) -> bool {
        match self {
            Type::PrimitiveType { basic_info, physical_type, type_length, scale, precision } => {
                &&& physical_type == PhysicalType::FixedLenByteArray ==> type_length >= 0
                &&& basic_info.logical_type == LogicalType::Decimal && holds_decimal(
                    physical_type,
                ) ==> precision >= 0 && scale >= 0
            },
            Type::GroupType { .. } => true,
        }
    }

    /// Whether the tree below this node is one that the format accepts: every child
    /// states its repetition, the children of a group have distinct names, and the
    /// numbers of every primitive are valid.
    pub open spec fn valid(self) -> bool
        decreases self,
    {
        match self {
            Type::PrimitiveType { .. } => self.numbers_valid(),
            Type::GroupType { fields, .. } => {
                &&& distinct(names_of(fields@))
                &&& forall|i: int|
                    0 <= i < fields.len() ==> (#[trigger] fields@[i]).info().repetition is Some
                        && fields@[i].valid()
            },
        }
    }

    /// Returns the node's basic information.
    pub fn get_basic_info(&self) -> (info: &BasicTypeInfo)
        ensures
            *info == self.info(),
    {
        match self {
            Type::PrimitiveType { basic_info, .. } => basic_info,
            Type::GroupType { basic_info, .. } => basic_info,
        }
    }

    /// Returns the node's name.
    pub fn name(&self) -> (name: &str)
        ensures
            name@ == self.name_view(),
    {
        self.get_basic_info().name.as_str()
    }

    /// Whether the node is a group.
    pub fn is_group(&self) -> (b: bool)
        ensures
            b == (self is GroupType),
    {
        match self {
            Type::GroupType { .. } => true,
            _ => false,
        }
    }

    /// Whether the node is a primitive.
    pub fn is_primitive(&self) -> (b: bool)
        ensures
            b == (self is PrimitiveType),
    {
        match self {
            Type::PrimitiveType { .. } => true,
            _ => false,
        }
    }

    /// Returns the children of a group.
    pub fn get_fields(&self) -> (fields: &Vec<Type>)
        requires
            self is GroupType,
        ensures
            fields@ == self.children(),
    {
        match self {
            Type::GroupType { fields, .. } => fields,
            _ => vstd::pervasive::unreached(),
        }
    }

    /// Whether the numbers that this node declares can be used.
    pub fn has_valid_numbers(&self) -> (b: bool)
        ensures
            b == self.numbers_valid(),
    {
        match self {
            Type::PrimitiveType { basic_info, physical_type, type_length, scale, precision } => {
                let length_ok = match physical_type {
                    PhysicalType::FixedLenByteArray => *type_length >= 0,
                    _ => true,
                };
                let decimal_ok = match (basic_info.logical_type, physical_type) {
                    (LogicalType::Decimal, PhysicalType::Int32)
                    | (LogicalType::Decimal, PhysicalType::Int64)
                    | (LogicalType::Decimal, PhysicalType::ByteArray)
                    | (LogicalType::Decimal, PhysicalType::FixedLenByteArray) => *precision >= 0
                        && *scale >= 0,
                    _ => true,
                };
                length_ok && decimal_ok
            },
            Type::GroupType { .. } => true,
        }
    }

    /// Whether the tree below this node is one that the format accepts.
    pub fn is_valid(&self) -> (b: bool)
        ensures
            b == self.valid(),
        decreases self,
    {
        match self {
            Type::PrimitiveType { .. } => self.has_valid_numbers(),
            Type::GroupType { fields, .. } => {
                let mut i: usize = 0;
                while i < fields.len()
                    invariant
                        0 <= i <= fields.len(),
                        self is GroupType,
                        self matches Type::GroupType { fields: f, .. } && f == fields,
                        forall|k: int|
                            0 <= k < i ==> (#[trigger] fields@[k]).info().repetition is Some
                                && fields@[k].valid(),
                        forall|k: int, j: int|
                            0 <= k < j < i ==> names_of(fields@)[k] != names_of(fields@)[j],
                    decreases fields.len() - i,
                {
                    let child = &fields[i];
                    if child.get_basic_info().repetition.is_none() {
                        return false;
                    }
                    if !child.is_valid() {
                        return false;
                    }
                    let mut k: usize = 0;
                    while k < i
                        invariant
                            0 <= k <= i < fields.len(),
                            child == fields@[i as int],
                            self matches Type::GroupType { fields: f, .. } && f == fields,
                            forall|m: int|
                                0 <= m < k ==> names_of(fields@)[m] != names_of(fields@)[i as int],
                        decreases i - k,
                    {
                        if str_eq(fields[k].name(), child.name()) {
                            assert(names_of(fields@)[k as int] == names_of(fields@)[i as int]);
                            assert(!distinct(names_of(fields@)));
                            return false;
                        }
                        k += 1;
                    }
                    i += 1;
                }
                true
            },
        }
    }
}

/// The children of a node of a valid tree are roots of valid trees, state their
/// repetition, and have distinct names.
pub proof fn lemma_children_valid(ty: Type)
    requires
        ty.valid(),
    ensures
        distinct(names_of(ty.children())),
        forall|i: int|
            0 <= i < ty.children().len() ==> (#[trigger] ty.children()[i]).valid()
                && ty.children()[i].info().repetition is Some,
{
    match ty {
        Type::PrimitiveType { .. } => {},
        Type::GroupType { fields, .. } => {
            assert forall|i: int| 0 <= i < ty.children().len() implies (
            #[trigger] ty.children()[i]).valid() && ty.children()[i].info().repetition is Some by {
                assert(fields@[i].valid());
            }
        },
    }
}

/// The paths of the columns below `fields`, which stand at `prefix`: those of the
/// first field, then those of the second, and so on.
pub open spec fn field_paths(fields: Seq<Type>, prefix: Seq<Seq<char>>) -> Seq<Seq<Seq<char>>>
    decreases fields,
{
    if fields.len() == 0 {
        Seq::empty()
    } else {
        field_paths(fields.drop_last(), prefix) + leaf_paths(fields.last(), prefix)
    }
}

/// The paths of the columns below a node that stands at `prefix`, in the order of the
/// file's columns. The path of a column is the names from the node down to the
/// column's primitive.
pub open spec fn leaf_paths(ty: Type, prefix: Seq<Seq<char>>) -> Seq<Seq<Seq<char>>>
    decreases ty,
{
    match ty {
        Type::PrimitiveType { .. } => seq![prefix.push(ty.name_view())],
        Type::GroupType { fields, .. } => field_paths(fields@, prefix.push(ty.name_view())),
    }
}

/// Appends to `out` the paths of the columns below `fields`, which stand at `path`.
fn push_field_paths(fields: &Vec<Type>, path: &mut Vec<String>, out: &mut Vec<Vec<String>>)
    ensures
        final(path)@ == old(path)@,
        paths_view(final(out)@) == paths_view(old(out)@) + field_paths(
            fields@,
            path_view(old(path)@),
        ),
    decreases fields@, 0nat,
{
    let ghost prefix = path_view(path@);
    let ghost start = paths_view(out@);
    let mut i: usize = 0;
    proof {
        assert(fields@.take(0) =~= Seq::<Type>::empty());
        assert(paths_view(out@) =~= start + field_paths(fields@.take(0), prefix));
    }
    while i < fields.len()
        invariant
            0 <= i <= fields.len(),
            path@ == old(path)@,
            prefix == path_view(old(path)@),
            start == paths_view(old(out)@),
            paths_view(out@) == start + field_paths(fields@.take(i as int), prefix),
        decreases fields.len() - i,
    {
        proof {
            assert(fields@.take(i + 1).drop_last() =~= fields@.take(i as int));
            assert(fields@.take(i + 1).last() == fields@[i as int]);
        }
        fields[i].push_leaf_paths(path, out);
        proof {
            assert(paths_view(out@) =~= start + field_paths(fields@.take(i + 1), prefix));
        }
        i += 1;
    }
    proof {
        assert(fields@.take(i as int) =~= fields@);
    }
}

impl Type {
    /// Appends to `out` the paths of the columns below this node, which stands at
    /// `path`. `path` is used as a stack on the way and is left as it was found.
    pub fn push_leaf_paths(&self, path: &mut Vec<String>, out: &mut Vec<Vec<String>>)
        ensures
            final(path)@ == old(path)@,
            paths_view(final(out)@) == paths_view(old(out)@) + leaf_paths(
                *self,
                path_view(old(path)@),
            ),
        decreases *self, 1nat,
    {
        let ghost before = path@;
        let ghost start = out@;
        path.push(owned(self.name()));
        assert(path_view(path@) =~= path_view(before).push(self.name_view()));
        match self {
            Type::PrimitiveType { .. } => {
                let leaf = copy_path(path);
                out.push(leaf);
                assert(paths_view(out@) =~= paths_view(start) + seq![
                    path_view(before).push(self.name_view()),
                ]);
            },
            Type::GroupType { fields, .. } => {
                push_field_paths(fields, path, out);
            },
        }
        let _ = path.pop();
        assert(path@ =~= before);
    }

    /// Returns the paths of the columns of the tree of which this node is the root, in
    /// the order of the file's columns. The root's own name is no part of a path.
    pub fn column_paths(&self) -> (paths: Vec<Vec<String>>)
        ensures
            paths_view(paths@) == field_paths(self.children(), Seq::empty()),
    {
        let mut path: Vec<String> = Vec::new();
        let mut out: Vec<Vec<String>> = Vec::new();
        assert(path_view(path@) =~= Seq::<Seq<char>>::empty());
        assert(paths_view(out@) =~= Seq::<Seq<Seq<char>>>::empty());
        match self {
            Type::PrimitiveType { .. } => {},
            Type::GroupType { fields, .. } => {
                push_field_paths(fields, &mut path, &mut out);
            },
        }
        assert(paths_view(out@) =~= field_paths(self.children(), Seq::empty()));
        out
    }
}

} // verus!
