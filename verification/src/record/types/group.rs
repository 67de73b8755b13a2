//! Groups of named fields, and the inference of a group's schema.

use crate::basic::Repetition;
use crate::errors::{ErrorView, ParquetError};
use crate::record::index::{
    entry_names, index_entries, index_insert, index_for, indexes, lemma_position_none,
};
use crate::record::infer::{
    infer_as_group, infer_fields, lemma_infer_fields_failure, lemma_infer_fields_step,
};
use crate::record::schemas::{
    lemma_all_wf, lemma_named_views, named_views, GroupSchema, SchemaView, ValueSchema,
};
use crate::record::index::{
    index_clone, index_get, index_is_consistent, index_names, lemma_position_of_distinct, lemma_position_some,
};
use crate::record::reader::share_index;
use crate::text::position;
use crate::record::reader::{
    build, build_fields, fields_fit, lemma_build_fields, lemma_fields_fit, lemma_named_readers,
    lemma_readers_wf, named_readers, path_view, paths_view, GroupReader, ReaderView, ValueReader,
};
use crate::record::types::list::is_required;
use crate::record::types::value::{copy_values, value_views, values_wf, Value};
use crate::schema::{names_of, Type};
use crate::record::types::convert::reversed;
use crate::text::{distinct, owned};
use vstd::std_specs::convert::FromSpecImpl;
use fxhash::FxBuildHasher;
use linked_hash_map::LinkedHashMap;
use std::sync::Arc;
use vstd::prelude::*;

verus! {

/// A group of named fields: the values in declaration order, and the index of their
/// names.
#[derive(Debug)]
pub struct Group(pub Vec<Value>, pub Arc<LinkedHashMap<String, usize, FxBuildHasher>>);

/// A row is a group.
pub type Row = Group;

impl Group {
    /// The names of the group's fields, in the order of its index.
    pub open spec fn names(self) -> Seq<Seq<char>> {
        entry_names(index_entries(*self.1))
    }

    /// Whether the group's index lists its fields: one name per field, in order, each
    /// with the field's position, and no name twice.
    pub open spec fn indexed(self) -> bool {
        indexes(index_entries(*self.1), self.0@.len())
    }

    /// Makes a group of its fields and the index of their names.
    pub fn new(fields: Vec<Value>, field_names: Arc<LinkedHashMap<String, usize, FxBuildHasher>>) -> (group:
        Self)
        ensures
            group.0 == fields,
            group.1 == field_names,
    {
        Group(fields, field_names)
    }

    /// Returns the field of the given name, if the group has one.
    pub fn get(&self, k: &str) -> (field: Option<&Value>)
        requires
            self.indexed(),
        ensures
            match position(self.names(), k@) {
                Some(at) => 0 <= at < self.0@.len() && field == Some(&self.0@[at]),
                None => field.is_none(),
            },
    {
        proof {
            lemma_position_some(self.names(), k@);
        }
        match index_get(&self.1, k) {
            Some(offset) => Some(&self.0[offset]),
            None => None,
        }
    }

    /// Returns the field of the given name for changing it, if the group has one.
    /// Nothing else of the group changes.
    pub fn get_mut(&mut self, k: &str) -> (field: Option<&mut Value>)
        requires
            old(self).indexed(),
        ensures
            final(self).1 == old(self).1,
            match position(old(self).names(), k@) {
                Some(at) => 0 <= at < old(self).0@.len() && (field matches Some(value) && *value
                    == old(self).0@[at] && final(self).0@ == old(self).0@.update(
                    at,
                    *final(value),
                )),
                None => field.is_none() && final(self).0@ == old(self).0@,
            },
    {
        proof {
            lemma_position_some(self.names(), k@);
        }
        match index_get(&self.1, k) {
            Some(offset) => Some(&mut self.0[offset]),
            None => None,
        }
    }

    /// Returns the field at the given position, if the group has that many fields.
    pub fn get_index(&self, index: usize) -> (field: Option<&Value>)
        ensures
            index < self.0@.len() ==> field == Some(&self.0@[index as int]),
            index >= self.0@.len() ==> field.is_none(),
    {
        if index < self.0.len() {
            Some(&self.0[index])
        } else {
            None
        }
    }

    /// Returns the number of fields.
    pub fn len(&self) -> (n: usize)
        ensures
            n == self.0@.len(),
    {
        self.0.len()
    }

    /// Returns the fields, in declaration order.
    pub fn into_fields(self) -> (fields: Vec<Value>)
        ensures
            fields == self.0,
    {
        self.0
    }

    /// Returns the index of the fields' names.
    pub fn field_names(&self) -> (names: Arc<LinkedHashMap<String, usize, FxBuildHasher>>)
        ensures
            *names == *self.1,
    {
        share_index(&self.1)
    }
}

/// In a group whose index lists its fields, the field found under the name of a
/// position is the field at that position: access by name and access by position
/// agree.
pub proof fn lemma_name_finds_position(group: Group, at: int)
    requires
        group.indexed(),
        0 <= at < group.0@.len(),
    ensures
        position(group.names(), group.names()[at]) == Some(at),
        index_entries(*group.1)[at].1 == at,
{
    lemma_position_of_distinct(group.names(), at);
}

/// Infers the schemas of the fields of a group, each with the repetition it declares,
/// and indexes them by name.
pub fn parse_fields(fields: &Vec<Type>) -> (r: Result<GroupSchema, ParquetError>)
    requires
        distinct(names_of(fields@)),
        forall|i: int| 0 <= i < fields.len() ==> (#[trigger] fields@[i]).valid(),
    ensures
        match r {
            Ok(group) => group.wf() && infer_fields(fields@) == Ok::<
                Seq<(Seq<char>, SchemaView)>,
                ErrorView,
            >(group.view()),
            Err(e) => infer_fields(fields@) == Err::<Seq<(Seq<char>, SchemaView)>, ErrorView>(
                e@,
            ),
        },
    decreases fields@, 0nat,
{
    let mut schemas: Vec<ValueSchema> = Vec::with_capacity(fields.len());
    let mut lookup = index_for(fields.len());
    let mut i: usize = 0;
    proof {
        assert(fields@.take(0) == Seq::<Type>::empty());
        assert(named_views(schemas@, index_entries(lookup)) == Seq::<
            (Seq<char>, SchemaView),
        >::empty());
    }
    while i < fields.len()
        invariant
            0 <= i <= fields.len(),
            distinct(names_of(fields@)),
            forall|k: int| 0 <= k < fields.len() ==> (#[trigger] fields@[k]).valid(),
            schemas@.len() == i,
            index_entries(lookup).len() == i,
            forall|k: int|
                0 <= k < i ==> #[trigger] index_entries(lookup)[k] == (
                    fields@[k].name_view(),
                    k as usize,
                ),
            forall|k: int| 0 <= k < i ==> (#[trigger] schemas@[k]).wf(),
            infer_fields(fields@.take(i as int)) == Ok::<Seq<(Seq<char>, SchemaView)>, ErrorView>(
                named_views(schemas@, index_entries(lookup)),
            ),
        decreases fields.len() - i,
    {
        let field = &fields[i];
        proof {
            lemma_infer_fields_step(fields@, i as int);
        }
        match Value::parse(field, field.get_basic_info().repetition) {
            Err(e) => {
                proof {
                    lemma_infer_fields_failure(fields@, i + 1);
                }
                return Err(e);
            },
            Ok((name, schema)) => {
                let ghost old_schemas = schemas@;
                let ghost old_entries = index_entries(lookup);
                proof {
                    lemma_position_none(entry_names(old_entries), name@);
                    assert forall|k: int| 0 <= k < entry_names(old_entries).len() implies entry_names(
                        old_entries,
                    )[k] != name@ by {
                        assert(names_of(fields@)[k] != names_of(fields@)[i as int]);
                    }
                }
                schemas.push(schema);
                let previous = index_insert(&mut lookup, name, i);
                proof {
                    let entries = index_entries(lookup);
                    assert(entries == old_entries.push((name@, i)));
                    lemma_named_views(old_schemas, old_entries);
                    lemma_named_views(schemas@, entries);
                    assert(named_views(schemas@, entries) =~= named_views(
                        old_schemas,
                        old_entries,
                    ).push((fields@[i as int].name_view(), schema@)));
                }
                i += 1;
            },
        }
    }
    proof {
        assert(fields@.take(i as int) == fields@);
        lemma_all_wf(schemas@);
        let entries = index_entries(lookup);
        assert forall|a: int, b: int| 0 <= a < b < entry_names(entries).len() implies entry_names(
            entries,
        )[a] != entry_names(entries)[b] by {
            assert(names_of(fields@)[a] != names_of(fields@)[b]);
        }
    }
    Ok(GroupSchema(schemas, lookup))
}

impl Group {
    /// Infers the schema of a group from a node that is to be read as one, and returns
    /// it with the node's name.
    pub fn parse(schema: &Type, repetition: Option<Repetition>) -> (r: Result<
        (String, GroupSchema),
        ParquetError,
    >)
        requires
            schema.valid(),
        ensures
            match r {
                Ok((name, group)) => name@ == schema.name_view() && group.wf() && infer_as_group(
                    *schema,
                    repetition,
                ) == Ok::<Seq<(Seq<char>, SchemaView)>, ErrorView>(group.view()),
                Err(e) => infer_as_group(*schema, repetition) == Err::<
                    Seq<(Seq<char>, SchemaView)>,
                    ErrorView,
                >(e@),
            },
    {
        if schema.is_group() && is_required(&repetition) {
            return match parse_fields(schema.get_fields()) {
                Ok(group) => Ok((owned(schema.name()), group)),
                Err(e) => Err(e),
            };
        }
        Err(ParquetError::ClassificationFailed { context: owned(schema.name()) })
    }
}

impl Group {
    /// Builds the reader of a group: one reader per field, in declaration order, each
    /// at the group's levels and one segment further, which is the field's name.
    pub fn reader(
        schema: &GroupSchema,
        path: &mut Vec<String>,
        def_level: i16,
        rep_level: i16,
        paths: &Vec<Vec<String>>,
        batch_size: usize,
    ) -> (reader: GroupReader)
        requires
            schema.wf(),
            fields_fit(schema.view(), def_level as int, rep_level as int),
        ensures
            final(path)@ == old(path)@,
            ValueReader::Group(reader).wf(),
            ValueReader::Group(reader)@ == (ReaderView::Group {
                fields: build_fields(
                    schema.view(),
                    path_view(old(path)@),
                    def_level as int,
                    rep_level as int,
                    paths_view(paths@),
                    batch_size as int,
                ),
                def_level: def_level as int,
                rep_level: rep_level as int,
            }),
        decreases *schema, 0nat,
    {
        let ghost before = path@;
        let ghost entries = index_entries(schema.1);
        let ghost wanted = build_fields(
            schema.view(),
            path_view(before),
            def_level as int,
            rep_level as int,
            paths_view(paths@),
            batch_size as int,
        );
        let names = index_names(&schema.1);
        let mut readers: Vec<ValueReader> = Vec::with_capacity(schema.0.len());
        let mut i: usize = 0;
        proof {
            lemma_all_wf(schema.0@);
            lemma_named_views(schema.0@, entries);
            lemma_fields_fit(schema.view(), def_level as int, rep_level as int);
            lemma_build_fields(
                schema.view(),
                path_view(before),
                def_level as int,
                rep_level as int,
                paths_view(paths@),
                batch_size as int,
            );
            assert forall|k: int| 0 <= k < schema.0.len() implies levels_fit_at(
                #[trigger] schema.0@[k],
                def_level,
                rep_level,
            ) by {
                assert(schema.view()[k] == (entries[k].0, schema.0@[k]@));
            }
        }
        while i < schema.0.len()
            invariant
                0 <= i <= schema.0.len(),
                path@ == before,
                entries == index_entries(schema.1),
                entries.len() == schema.0.len(),
                names@.len() == entries.len(),
                forall|k: int| 0 <= k < names@.len() ==> (#[trigger] names@[k])@ == entries[k].0,
                forall|k: int| 0 <= k < schema.0.len() ==> (#[trigger] schema.0@[k]).wf(),
                forall|k: int|
                    0 <= k < schema.0.len() ==> levels_fit_at(
                        #[trigger] schema.0@[k],
                        def_level,
                        rep_level,
                    ),
                wanted.len() == schema.0.len(),
                forall|k: int|
                    0 <= k < schema.0.len() ==> #[trigger] wanted[k] == (
                        entries[k].0,
                        build(
                            schema.0@[k]@,
                            path_view(before).push(entries[k].0),
                            def_level as int,
                            rep_level as int,
                            paths_view(paths@),
                            batch_size as int,
                        ),
                    ),
                readers@.len() == i,
                forall|k: int| 0 <= k < i ==> (#[trigger] readers@[k]).wf(),
                forall|k: int| 0 <= k < i ==> (#[trigger] readers@[k])@ == wanted[k].1,
            decreases schema.0.len() - i,
        {
            path.push(names[i].clone());
            assert(path_view(path@) =~= path_view(before).push(entries[i as int].0));
            let reader = Value::reader(&schema.0[i], path, def_level, rep_level, paths, batch_size);
            let _ = path.pop();
            assert(path@ =~= before);
            readers.push(reader);
            i += 1;
        }
        let fields = Arc::new(index_clone(&schema.1));
        proof {
            lemma_readers_wf(readers@);
            lemma_named_readers(readers@, entries);
            assert(named_readers(readers@, index_entries(*fields)) =~= wanted);
        }
        GroupReader { readers, fields, def_level, rep_level }
    }
}

/// Whether the levels below a schema at the given levels can be held in 16 bits.
pub open spec fn levels_fit_at(schema: ValueSchema, def_level: i16, rep_level: i16) -> bool {
    crate::record::reader::levels_fit(schema@, def_level as int, rep_level as int)
}

/// The entries of a map from names to values, oldest first.
pub uninterp spec fn named_fields(m: LinkedHashMap<String, Value, FxBuildHasher>) -> Seq<
    (Seq<char>, Value),
>;

/// The names of `pairs`, in order.
pub open spec fn pair_names(pairs: Seq<(String, Value)>) -> Seq<Seq<char>> {
    Seq::new(pairs.len(), |i: int| pairs[i].0@)
}

/// `LinkedHashMap::into_iter`, collected: the entries of the map, oldest first. No
/// name occurs twice among them.
#[verifier::external_body]
pub(crate) fn fields_into_pairs(m: LinkedHashMap<String, Value, FxBuildHasher>) -> (pairs: Vec<
    (String, Value),
>)
    ensures
        pairs@.len() == named_fields(m).len(),
        forall|i: int|
            0 <= i < pairs@.len() ==> (#[trigger] pairs@[i]).0@ == named_fields(m)[i].0
                && pairs@[i].1 == named_fields(m)[i].1,
        distinct(pair_names(pairs@)),
{
    m.into_iter().collect()
}

/// `LinkedHashMap::from_iter`: the map that holds the pairs, where no name occurs
/// twice among them, in their order.
#[verifier::external_body]
pub(crate) fn fields_from_pairs(pairs: Vec<(String, Value)>) -> (m: LinkedHashMap<
    String,
    Value,
    FxBuildHasher,
>)
    ensures
        distinct(pair_names(pairs@)) ==> named_fields(m).len() == pairs@.len() && forall|i: int|
            0 <= i < pairs@.len() ==> (#[trigger] named_fields(m)[i]).0 == pairs@[i].0@
                && named_fields(m)[i].1 == pairs@[i].1,
{
    LinkedHashMap::from_iter(pairs)
}

impl From<LinkedHashMap<String, Value, FxBuildHasher>> for Group {
    /// Makes a group of a map from names to values: the values in the map's order,
    /// indexed by their names.
    fn from(hashmap: LinkedHashMap<String, Value, FxBuildHasher>) -> (group: Self)
        ensures
            group.indexed(),
            group.0@.len() == named_fields(hashmap).len(),
            forall|i: int|
                0 <= i < group.0@.len() ==> #[trigger] group.0@[i] == named_fields(hashmap)[i].1
                    && group.names()[i] == named_fields(hashmap)[i].0,
    {
        let pairs = fields_into_pairs(hashmap);
        let ghost source = pairs@;
        let count = pairs.len();
        let mut rest = reversed(pairs);
        let mut keys = index_for(count);
        let mut values: Vec<Value> = Vec::with_capacity(count);
        while rest.len() > 0
            invariant
                distinct(pair_names(source)),
                values@.len() + rest@.len() == source.len(),
                forall|k: int| 0 <= k < rest@.len() ==> rest@[k] == source[source.len() - 1 - k],
                index_entries(keys).len() == values@.len(),
                forall|i: int|
                    0 <= i < values@.len() ==> #[trigger] index_entries(keys)[i] == (
                        source[i].0@,
                        i as usize,
                    ),
                forall|i: int| 0 <= i < values@.len() ==> #[trigger] values@[i] == source[i].1,
            decreases rest@.len(),
        {
            let (key, value) = rest.pop().unwrap();
            let ghost at = values@.len() as int;
            proof {
                assert((key, value) == source[at]);
                lemma_position_none(entry_names(index_entries(keys)), key@);
                assert forall|k: int|
                    0 <= k < entry_names(index_entries(keys)).len() implies entry_names(
                    index_entries(keys),
                )[k] != key@ by {
                    assert(pair_names(source)[k] != pair_names(source)[at]);
                }
            }
            let previous = index_insert(&mut keys, key, values.len());
            values.push(value);
        }
        proof {
            let entries = index_entries(keys);
            assert forall|a: int, b: int|
                0 <= a < b < entry_names(entries).len() implies entry_names(entries)[a]
                != entry_names(entries)[b] by {
                assert(pair_names(source)[a] != pair_names(source)[b]);
            }
        }
        let group = Group(values, Arc::new(keys));
        proof {
            assert forall|i: int| 0 <= i < group.0@.len() implies #[trigger] group.0@[i]
                == named_fields(hashmap)[i].1 && group.names()[i] == named_fields(hashmap)[i].0 by {
                assert(index_entries(*group.1)[i] == (source[i].0@, i as usize));
            }
        }
        group
    }
}

impl FromSpecImpl<LinkedHashMap<String, Value, FxBuildHasher>> for Group {
    open spec fn obeys_from_spec() -> bool {
        false
    }

    open spec fn from_spec(hashmap: LinkedHashMap<String, Value, FxBuildHasher>) -> Self {
        arbitrary()
    }
}

impl Group {
    /// Makes a map from names to values of a group: each field under its name, in
    /// declaration order.
    pub fn into_map(self) -> (map: LinkedHashMap<String, Value, FxBuildHasher>)
        requires
            self.indexed(),
        ensures
            named_fields(map).len() == self.0@.len(),
            forall|i: int|
                0 <= i < self.0@.len() ==> (#[trigger] named_fields(map)[i]).0 == self.names()[i]
                    && named_fields(map)[i].1 == self.0@[i],
    {
        let names = index_names(&self.1);
        let ghost source = self.0@;
        let ghost wanted = self.names();
        let mut rest = reversed(self.0);
        let mut pairs: Vec<(String, Value)> = Vec::with_capacity(names.len());
        while rest.len() > 0
            invariant
                names@.len() == source.len(),
                forall|i: int| 0 <= i < names@.len() ==> (#[trigger] names@[i])@ == wanted[i],
                pairs@.len() + rest@.len() == source.len(),
                forall|k: int| 0 <= k < rest@.len() ==> rest@[k] == source[source.len() - 1 - k],
                forall|i: int|
                    0 <= i < pairs@.len() ==> (#[trigger] pairs@[i]).0@ == wanted[i] && pairs@[i].1
                        == source[i],
            decreases rest@.len(),
        {
            let value = rest.pop().unwrap();
            let name = names[pairs.len()].clone();
            pairs.push((name, value));
        }
        proof {
            assert forall|a: int, b: int| 0 <= a < b < pair_names(pairs@).len() implies pair_names(
                pairs@,
            )[a] != pair_names(pairs@)[b] by {
                assert(wanted[a] != wanted[b]);
            }
        }
        fields_from_pairs(pairs)
    }
}

impl Clone for Group {
    /// Returns a copy of the group: copies of its fields, and its index shared.
    fn clone(&self) -> (copy: Self)
        ensures
            value_views(copy.0@) == value_views(self.0@),
            *copy.1 == *self.1,
            copy.0@.len() == self.0@.len(),
            values_wf(self.0@) ==> values_wf(copy.0@),
    {
        Group(copy_values(&self.0), share_index(&self.1))
    }
}

impl std::ops::Index<usize> for Group {
    type Output = Value;

    /// Returns the field at `index`, which must be a position of the group.
    fn index(&self, index: usize) -> (field: &Value)
        ensures
            *field == self.0@[index as int],
    {
        &self.0[index]
    }
}

impl vstd::std_specs::core::IndexSpecImpl<usize> for Group {
    open spec fn index_req(&self, index: &usize) -> bool {
        *index < self.0@.len()
    }
}

impl std::ops::Index<&str> for Group {
    type Output = Value;

    /// Returns the field of the name `index`, which must be a name of the group.
    fn index(&self, index: &str) -> (field: &Value)
        ensures
            position(self.names(), index@) matches Some(at) && *field == self.0@[at],
    {
        self.get(index).unwrap()
    }
}

impl vstd::std_specs::core::IndexSpecImpl<&str> for Group {
    open spec fn index_req(&self, index: &&str) -> bool {
        self.indexed() && position(self.names(), index@) is Some
    }
}

impl Group {
    /// Whether the group's index lists its fields.
    pub fn is_indexed(&self) -> (b: bool)
        ensures
            b == self.indexed(),
    {
        index_is_consistent(&self.1, self.0.len())
    }
}

} // verus!
