//! Lists, and the inference of a list's schema.

use crate::basic::{LogicalType, Repetition};
use crate::errors::{ErrorView, ParquetError};
use crate::record::infer::{infer_as_list, infer_list, is_list_wrapper, is_three_level};
use crate::record::schemas::{ListLayout, ListSchema, ListSchemaType, SchemaView, ValueSchema};
use crate::record::reader::{
    build, levels_fit, list_segments, path_view, paths_view, RepeatedReader,
};
use crate::record::types::value::Value;
use crate::schema::{lemma_children_valid, Type};
use crate::text::{joined, owned, str_eq};
use vstd::prelude::*;
use vstd::std_specs::cmp::{PartialEqSpec, PartialEqSpecImpl};
use vstd::std_specs::iter::IteratorSpec;

verus! {

/// A list of elements, in the order in which the file holds them.
#[derive(Clone, Debug)]
pub struct List<T>(pub Vec<T>);

impl<T> List<T> {
    /// Returns an iterator over references to the elements, first to last.
    pub fn iter(&self) -> (iter: std::slice::Iter<'_, T>)
        ensures
            iter.remaining() == self.0@.as_ref(),
    {
        self.0.iter()
    }

    /// Returns an iterator over the elements, first to last.
    pub fn into_iter(self) -> (iter: std::vec::IntoIter<T>)
        ensures
            iter.remaining() == self.0@,
    {
        self.0.into_iter()
    }

    /// Returns the number of elements.
    pub fn len(&self) -> (n: usize)
        ensures
            n == self.0@.len(),
    {
        self.0.len()
    }

    /// Returns the element at `index`.
    pub fn get(&self, index: usize) -> (element: Option<&T>)
        ensures
            index < self.0@.len() ==> element == Some(&self.0@[index as int]),
            index >= self.0@.len() ==> element.is_none(),
    {
        if index < self.0.len() {
            Some(&self.0[index])
        } else {
            None
        }
    }

    /// Returns the elements.
    pub fn into_vec(self) -> (elements: Vec<T>)
        ensures
            elements == self.0,
    {
        self.0
    }
}

impl<T> From<Vec<T>> for List<T> {
    fn from(vec: Vec<T>) -> (list: Self) {
        List(vec)
    }
}

impl<T> vstd::std_specs::convert::FromSpecImpl<Vec<T>> for List<T> {
    open spec fn obeys_from_spec() -> bool {
        true
    }

    open spec fn from_spec(vec: Vec<T>) -> Self {
        List(vec)
    }
}

/// Whether a repetition is stated and is `Repeated`.
pub fn is_repeated(repetition: &Option<Repetition>) -> (b: bool)
    ensures
        b == (*repetition == Some(Repetition::Repeated)),
{
    match repetition {
        Some(Repetition::Repeated) => true,
        _ => false,
    }
}

/// Whether a repetition is stated and is `Required`.
pub fn is_required(repetition: &Option<Repetition>) -> (b: bool)
    ensures
        b == (*repetition == Some(Repetition::Required)),
{
    match repetition {
        Some(Repetition::Required) => true,
        _ => false,
    }
}

/// A wrapper's name for a schema: none where it is the usual one.
pub fn name_unless(name: &str, usual: &str) -> (recorded: Option<String>)
    ensures
        crate::record::schemas::name_view(recorded) == crate::record::infer::recorded_name(
            name@,
            usual@,
        ),
{
    if str_eq(name, usual) {
        None
    } else {
        Some(owned(name))
    }
}

/// Whether a list wrapper has three levels, as opposed to the older two.
fn has_three_levels(schema: &Type) -> (b: bool)
    requires
        is_list_wrapper(*schema),
    ensures
        b == is_three_level(*schema),
{
    let sub_schema = &schema.get_fields()[0];
    if sub_schema.is_group() && sub_schema.get_fields().len() == 1 {
        let tuple_name = joined(schema.name(), "_tuple");
        !str_eq(sub_schema.name(), "array") && !str_eq(sub_schema.name(), tuple_name.as_str())
    } else {
        false
    }
}

/// Infers the schema of the list that a node describes: a group annotated as list
/// with one repeated child. Both the three-level layout and the older two-level one
/// are recognised, and the names found in the file are kept for the reader.
pub fn parse_list(schema: &Type) -> (r: Result<ListSchema<ValueSchema>, ParquetError>)
    requires
        schema.valid(),
    ensures
        match r {
            Ok(list) => list.0.wf() && infer_list(*schema) == Ok::<
                (SchemaView, ListLayout),
                ErrorView,
            >((list.0@, list.1@)),
            Err(e) => infer_list(*schema) == Err::<(SchemaView, ListLayout), ErrorView>(e@),
        },
    decreases *schema, 0nat,
{
    if schema.is_group() && schema.get_basic_info().logical_type == LogicalType::List
        && schema.get_fields().len() == 1 {
        let sub_schema = &schema.get_fields()[0];
        proof {
            lemma_children_valid(*schema);
            lemma_children_valid(*sub_schema);
        }
        if is_repeated(&sub_schema.get_basic_info().repetition) {
            if has_three_levels(schema) {
                let element = &sub_schema.get_fields()[0];
                let list_name = name_unless(sub_schema.name(), "list");
                let element_name = name_unless(element.name(), "element");
                return match Value::parse(element, element.get_basic_info().repetition) {
                    Ok((_, value)) => Ok(
                        ListSchema(value, ListSchemaType::List(list_name, element_name)),
                    ),
                    Err(e) => Err(e),
                };
            } else {
                let element_name = owned(sub_schema.name());
                return match Value::parse(sub_schema, Some(Repetition::Required)) {
                    Ok((_, value)) => Ok(
                        ListSchema(value, ListSchemaType::ListCompat(element_name)),
                    ),
                    Err(e) => Err(e),
                };
            }
        }
    }
    Err(ParquetError::MalformedListWrapper)
}

impl List<Value> {
    /// Infers the schema of a list from a node that is to be read as one, and returns
    /// it with the node's name.
    pub fn parse(schema: &Type, repetition: Option<Repetition>) -> (r: Result<
        (String, ListSchema<ValueSchema>),
        ParquetError,
    >)
        requires
            schema.valid(),
        ensures
            match r {
                Ok((name, list)) => name@ == schema.name_view() && list.0.wf() && infer_as_list(
                    *schema,
                    repetition,
                ) == Ok::<(SchemaView, ListLayout), ErrorView>((list.0@, list.1@)),
                Err(e) => infer_as_list(*schema, repetition) == Err::<
                    (SchemaView, ListLayout),
                    ErrorView,
                >(e@),
            },
    {
        if is_required(&repetition) {
            return match parse_list(schema) {
                Ok(list) => Ok((owned(schema.name()), list)),
                Err(e) => Err(e),
            };
        }
        if is_repeated(&repetition) {
            return match Value::parse(schema, Some(Repetition::Required)) {
                Ok((name, value)) => Ok((name, ListSchema(value, ListSchemaType::Repeated))),
                Err(e) => Err(e),
            };
        }
        Err(ParquetError::MalformedListWrapper)
    }
}

impl List<Value> {
    /// Builds the reader of a list: the reader of its elements, one level deeper in
    /// both levels, at the path that the list's layout leads to.
    pub fn reader(
        schema: &ListSchema<ValueSchema>,
        path: &mut Vec<String>,
        def_level: i16,
        rep_level: i16,
        paths: &Vec<Vec<String>>,
        batch_size: usize,
    ) -> (reader: RepeatedReader)
        requires
            schema.0.wf(),
            def_level < i16::MAX,
            rep_level < i16::MAX,
            levels_fit(schema.0@, def_level + 1, rep_level + 1),
        ensures
            final(path)@ == old(path)@,
            reader.reader.wf(),
            reader.def_level == def_level,
            reader.rep_level == rep_level,
            reader.reader@ == build(
                schema.0@,
                path_view(old(path)@) + list_segments(schema.1@),
                def_level + 1,
                rep_level + 1,
                paths_view(paths@),
                batch_size as int,
            ),
        decreases *schema, 0nat,
    {
        let ghost before = path@;
        let reader = match &schema.1 {
            ListSchemaType::List(list_name, element_name) => {
                let list_name = match list_name {
                    Some(name) => name.clone(),
                    None => owned("list"),
                };
                let element_name = match element_name {
                    Some(name) => name.clone(),
                    None => owned("element"),
                };
                path.push(list_name);
                path.push(element_name);
                assert(path_view(path@) =~= path_view(before) + list_segments(schema.1@));
                let reader = Value::reader(
                    &schema.0,
                    path,
                    def_level + 1,
                    rep_level + 1,
                    paths,
                    batch_size,
                );
                let _ = path.pop();
                let _ = path.pop();
                reader
            },
            ListSchemaType::ListCompat(element_name) => {
                path.push(element_name.clone());
                assert(path_view(path@) =~= path_view(before) + list_segments(schema.1@));
                let reader = Value::reader(
                    &schema.0,
                    path,
                    def_level + 1,
                    rep_level + 1,
                    paths,
                    batch_size,
                );
                let _ = path.pop();
                reader
            },
            ListSchemaType::Repeated => {
                assert(path_view(path@) =~= path_view(before) + list_segments(schema.1@));
                Value::reader(&schema.0, path, def_level + 1, rep_level + 1, paths, batch_size)
            },
        };
        assert(path@ =~= before);
        RepeatedReader { reader, def_level, rep_level }
    }
}

impl<T> std::ops::Index<usize> for List<T> {
    type Output = T;

    /// Returns the element at `index`, which must be a position of the list.
    fn index(&self, index: usize) -> (element: &T)
        ensures
            *element == self.0@[index as int],
    {
        &self.0[index]
    }
}

impl<T> vstd::std_specs::core::IndexSpecImpl<usize> for List<T> {
    open spec fn index_req(&self, index: &usize) -> bool {
        *index < self.0@.len()
    }
}

impl<T: PartialEq<U>, U> PartialEq<List<U>> for List<T> {
    /// Whether the two lists are as long as each other and equal element by element.
    fn eq(&self, other: &List<U>) -> (same: bool) {
        self.0 == other.0
    }
}

impl<T: PartialEq<U>, U> PartialEqSpecImpl<List<U>> for List<T> {
    open spec fn obeys_eq_spec() -> bool {
        <T as PartialEqSpec<U>>::obeys_eq_spec()
    }

    open spec fn eq_spec(&self, other: &List<U>) -> bool {
        <Vec<T> as PartialEqSpec<Vec<U>>>::eq_spec(&self.0, &other.0)
    }
}

} // verus!
