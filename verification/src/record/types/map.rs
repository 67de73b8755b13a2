//! Maps, and the inference of a map's schema.

use crate::basic::LogicalType;
use crate::errors::{ErrorView, ParquetError};
use crate::record::infer::infer_map;
use crate::record::schemas::{MapSchema, SchemaView, ValueSchema};
use crate::record::types::list::{is_repeated, is_required, name_unless};
use crate::record::reader::{build, levels_fit, name_or, path_view, paths_view, KeyValueReader};
use crate::record::schemas::name_view;
use crate::record::assembly::put;
use crate::record::types::equal::{find_entry, lookup};
use crate::record::types::value::{
    entries_wf, entry_views, lemma_entries_wf, lemma_entry_views, Value, ValueView,
};
use crate::text::owned;
use crate::schema::{lemma_children_valid, Type};
use vstd::prelude::*;

verus! {

/// A map, as its entries in the order in which their keys first came in.
#[derive(Clone, Debug)]
pub struct Mapping<K, V>(pub Vec<(K, V)>);

impl<K, V> Mapping<K, V> {
    /// Returns the number of entries.
    pub fn len(&self) -> (n: usize)
        ensures
            n == self.0@.len(),
    {
        self.0.len()
    }

    /// Returns the entries, in the order in which their keys first came in.
    pub fn into_entries(self) -> (entries: Vec<(K, V)>)
        ensures
            entries == self.0,
    {
        self.0
    }
}

impl Mapping<Value, Value> {
    /// The entries of the map.
    pub open spec fn entries(self) -> Seq<(ValueView, ValueView)> {
        entry_views(self.0@)
    }

    /// Makes a map without entries.
    pub fn new() -> (map: Self)
        ensures
            map.0@ == Seq::<(Value, Value)>::empty(),
            map.entries() == Seq::<(ValueView, ValueView)>::empty(),
            entries_wf(map.0@),
    {
        Mapping(Vec::new())
    }

    /// Returns the value of the first entry whose key equals `key`.
    pub fn get(&self, key: &Value) -> (value: Option<&Value>)
        ensures
            match lookup(self.entries(), key@) {
                Some(at) => 0 <= at < self.0@.len() && value == Some(&self.0@[at].1),
                None => value.is_none(),
            },
    {
        match find_entry(&self.0, key) {
            Some(at) => Some(&self.0[at].1),
            None => None,
        }
    }

    /// Puts `value` under `key`. Where an entry has an equal key, the entry keeps its
    /// place and its key, takes the new value, and its old value is returned.
    /// Otherwise the new entry goes to the end.
    pub fn insert(&mut self, key: Value, value: Value) -> (previous: Option<Value>)
        ensures
            final(self).entries() == put(old(self).entries(), key@, value@),
            match lookup(old(self).entries(), key@) {
                Some(at) => 0 <= at < old(self).0@.len() && previous == Some(old(self).0@[at].1),
                None => previous.is_none(),
            },
            entries_wf(old(self).0@) && key.wf() && value.wf() ==> entries_wf(final(self).0@),
            lookup(old(self).entries(), key@) is None ==> final(self).0@ == old(self).0@.push(
                (key, value),
            ),
    {
        let ghost before = self.0@;
        proof {
            lemma_entry_views(before);
            lemma_entries_wf(before);
        }
        match find_entry(&self.0, &key) {
            Some(at) => {
                let old_entry = self.0.remove(at);
                self.0.insert(at, (old_entry.0, value));
                proof {
                    lemma_entry_views(self.0@);
                    lemma_entries_wf(self.0@);
                    assert(entry_views(self.0@) =~= put(entry_views(before), key@, value@));
                    if entries_wf(before) && key.wf() && value.wf() {
                        assert forall|i: int| 0 <= i < self.0@.len() implies (
                        #[trigger] self.0@[i]).0.wf() && self.0@[i].1.wf() by {
                            if i != at {
                                assert(self.0@[i] == before[i]);
                            } else {
                                assert(self.0@[i].0 == before[i].0);
                            }
                        }
                    }
                }
                Some(old_entry.1)
            },
            None => {
                self.0.push((key, value));
                proof {
                    lemma_entry_views(self.0@);
                    lemma_entries_wf(self.0@);
                    assert(entry_views(self.0@) =~= put(entry_views(before), key@, value@));
                    if entries_wf(before) && key.wf() && value.wf() {
                        assert forall|i: int| 0 <= i < self.0@.len() implies (
                        #[trigger] self.0@[i]).0.wf() && self.0@[i].1.wf() by {
                            if i < before.len() {
                                assert(self.0@[i] == before[i]);
                            }
                        }
                    }
                }
                None
            },
        }
    }
}

/// Infers the schema of the map that a node describes: a group annotated as map whose
/// one child is a repeated group of a required key and a value. The names found in
/// the file are kept for the reader.
pub fn parse_map(schema: &Type) -> (r: Result<MapSchema<ValueSchema, ValueSchema>, ParquetError>)
    requires
        schema.valid(),
    ensures
        match r {
            Ok(map) => ValueSchema::Mapping(Box::new(map)).wf() && infer_map(*schema) == Ok::<
                SchemaView,
                ErrorView,
            >(ValueSchema::Mapping(Box::new(map))@),
            Err(e) => infer_map(*schema) == Err::<SchemaView, ErrorView>(e@),
        },
    decreases *schema, 0nat,
{
    if schema.is_group() && (schema.get_basic_info().logical_type == LogicalType::MapAnnotated
        || schema.get_basic_info().logical_type == LogicalType::MapKeyValue)
        && schema.get_fields().len() == 1 {
        let sub_schema = &schema.get_fields()[0];
        proof {
            lemma_children_valid(*schema);
            lemma_children_valid(*sub_schema);
        }
        if sub_schema.is_group() && is_repeated(&sub_schema.get_basic_info().repetition)
            && sub_schema.get_fields().len() == 2 {
            let key = &sub_schema.get_fields()[0];
            let value = &sub_schema.get_fields()[1];
            if is_required(&key.get_basic_info().repetition) {
                let key_value_name = name_unless(sub_schema.name(), "key_value");
                let key_name = name_unless(key.name(), "key");
                let value_name = name_unless(value.name(), "value");
                let key_schema = match Value::parse(key, key.get_basic_info().repetition) {
                    Ok((_, s)) => s,
                    Err(e) => {
                        return Err(e);
                    },
                };
                let value_schema = match Value::parse(value, value.get_basic_info().repetition) {
                    Ok((_, s)) => s,
                    Err(e) => {
                        return Err(e);
                    },
                };
                return Ok(
                    MapSchema(key_schema, value_schema, key_value_name, key_name, value_name),
                );
            }
        }
    }
    Err(ParquetError::MalformedMapWrapper)
}

impl Mapping<Value, Value> {
    /// Builds the reader of a map: the readers of its keys and of its values, each one
    /// level deeper in both levels, at the paths that the names in the schema lead to.
    pub fn reader(
        schema: &MapSchema<ValueSchema, ValueSchema>,
        path: &mut Vec<String>,
        def_level: i16,
        rep_level: i16,
        paths: &Vec<Vec<String>>,
        batch_size: usize,
    ) -> (reader: KeyValueReader)
        requires
            schema.0.wf(),
            schema.1.wf(),
            def_level < i16::MAX,
            rep_level < i16::MAX,
            levels_fit(schema.0@, def_level + 1, rep_level + 1),
            levels_fit(schema.1@, def_level + 1, rep_level + 1),
        ensures
            final(path)@ == old(path)@,
            reader.keys_reader.wf(),
            reader.values_reader.wf(),
            reader.def_level == def_level,
            reader.rep_level == rep_level,
            reader.keys_reader@ == build(
                schema.0@,
                path_view(old(path)@).push(name_or(name_view(schema.2), "key_value"@)).push(
                    name_or(name_view(schema.3), "key"@),
                ),
                def_level + 1,
                rep_level + 1,
                paths_view(paths@),
                batch_size as int,
            ),
            reader.values_reader@ == build(
                schema.1@,
                path_view(old(path)@).push(name_or(name_view(schema.2), "key_value"@)).push(
                    name_or(name_view(schema.4), "value"@),
                ),
                def_level + 1,
                rep_level + 1,
                paths_view(paths@),
                batch_size as int,
            ),
        decreases *schema, 0nat,
    {
        let ghost before = path@;
        let key_value_name = match &schema.2 {
            Some(name) => name.clone(),
            None => owned("key_value"),
        };
        let key_name = match &schema.3 {
            Some(name) => name.clone(),
            None => owned("key"),
        };
        let value_name = match &schema.4 {
            Some(name) => name.clone(),
            None => owned("value"),
        };
        path.push(key_value_name);
        path.push(key_name);
        assert(path_view(path@) =~= path_view(before).push(
            name_or(name_view(schema.2), "key_value"@),
        ).push(name_or(name_view(schema.3), "key"@)));
        let keys_reader = Value::reader(
            &schema.0,
            path,
            def_level + 1,
            rep_level + 1,
            paths,
            batch_size,
        );
        let _ = path.pop();
        path.push(value_name);
        assert(path_view(path@) =~= path_view(before).push(
            name_or(name_view(schema.2), "key_value"@),
        ).push(name_or(name_view(schema.4), "value"@)));
        let values_reader = Value::reader(
            &schema.1,
            path,
            def_level + 1,
            rep_level + 1,
            paths,
            batch_size,
        );
        let _ = path.pop();
        let _ = path.pop();
        assert(path@ =~= before);
        KeyValueReader { keys_reader, values_reader, def_level, rep_level }
    }
}

} // verus!
