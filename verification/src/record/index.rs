//! The name index of a group: field names in declaration order, each with the ordinal
//! of its field. It is an insertion-ordered hash map, so a name is found in constant
//! time and the names come out in the order in which they went in.

use crate::text::{distinct, position};
use fxhash::{FxBuildHasher, FxHasher};
use linked_hash_map::LinkedHashMap;
use std::hash::BuildHasherDefault;
use vstd::prelude::*;

verus! {

/// `linked_hash_map::LinkedHashMap`: a hash map that keeps its entries in the order
/// in which they went in. Nothing is known of a value of it but what the functions
/// below state.
#[verifier::external_type_specification]
#[verifier::external_body]
#[verifier::reject_recursive_types(K)]
#[verifier::reject_recursive_types(V)]
#[verifier::reject_recursive_types(S)]
pub struct ExLinkedHashMap<K, V, S>(LinkedHashMap<K, V, S>);

/// `std::hash::BuildHasherDefault`: makes hashers by their `Default`. It is carried
/// in the map's type and never looked into.
#[verifier::external_type_specification]
#[verifier::external_body]
#[verifier::reject_recursive_types(H)]
pub struct ExBuildHasherDefault<H>(BuildHasherDefault<H>);

/// `fxhash::FxHasher`: the hasher of the name index. It is carried in the map's type
/// and never looked into.
#[verifier::external_type_specification]
#[verifier::external_body]
pub struct ExFxHasher(FxHasher);

/// The entries of a name index, oldest first: each name with the ordinal stored for it.
pub uninterp spec fn index_entries(m: LinkedHashMap<String, usize, FxBuildHasher>) -> Seq<
    (Seq<char>, usize),
>;

/// The names of `entries`, in order.
pub open spec fn entry_names(entries: Seq<(Seq<char>, usize)>) -> Seq<Seq<char>> {
    Seq::new(entries.len(), |i: int| entries[i].0)
}

/// Whether `entries` is the index of a group of `n` fields: one entry per field, in
/// order, each holding its own position, and no name twice.
pub open spec fn indexes(entries: Seq<(Seq<char>, usize)>, n: nat) -> bool {
    &&& entries.len() == n
    &&& forall|i: int| 0 <= i < entries.len() ==> (#[trigger] entries[i]).1 == i
    &&& distinct(entry_names(entries))
}

/// The largest capacity that an index is made with. A larger group still fits: the
/// index grows as names go in.
pub const MAX_CAPACITY: usize = 0x0100_0000;

/// `LinkedHashMap::with_capacity_and_hasher`, with the default state of the hasher:
/// the new map holds no entry. A capacity whose table would not fit the address
/// space is left out.
#[verifier::external_body]
pub(crate) fn index_with_capacity(capacity: usize) -> (m: LinkedHashMap<
    String,
    usize,
    FxBuildHasher,
>)
    requires
        capacity <= MAX_CAPACITY,
    ensures
        index_entries(m) == Seq::<(Seq<char>, usize)>::empty(),
{
    LinkedHashMap::with_capacity_and_hasher(capacity, Default::default())
}

/// Returns an empty index with room for the names of `fields` fields.
pub fn index_for(fields: usize) -> (m: LinkedHashMap<String, usize, FxBuildHasher>)
    ensures
        index_entries(m) == Seq::<(Seq<char>, usize)>::empty(),
{
    if fields <= MAX_CAPACITY {
        index_with_capacity(fields)
    } else {
        index_with_capacity(MAX_CAPACITY)
    }
}

/// `LinkedHashMap::insert`. A name that the map does not hold goes to the end and
/// nothing is returned. For a name that it holds, the stored ordinal is returned and
/// the entry moves to the end with the new ordinal.
#[verifier::external_body]
pub(crate) fn index_insert(
    m: &mut LinkedHashMap<String, usize, FxBuildHasher>,
    name: String,
    ordinal: usize,
) -> (previous: Option<usize>)
    ensures
        match position(entry_names(index_entries(*old(m))), name@) {
            Some(at) => previous == Some(index_entries(*old(m))[at].1) && index_entries(
                *final(m),
            ) == index_entries(*old(m)).remove(at).push((name@, ordinal)),
            None => previous.is_none() && index_entries(*final(m)) == index_entries(
                *old(m),
            ).push((name@, ordinal)),
        },
{
    m.insert(name, ordinal)
}

/// `LinkedHashMap::get`: the ordinal stored for `name`, if the map holds the name.
#[verifier::external_body]
pub(crate) fn index_get(m: &LinkedHashMap<String, usize, FxBuildHasher>, name: &str) -> (ordinal:
    Option<usize>)
    ensures
        ordinal == match position(entry_names(index_entries(*m)), name@) {
            Some(at) => Some(index_entries(*m)[at].1),
            None => None,
        },
{
    m.get(name).copied()
}

/// `LinkedHashMap::len`: the number of entries.
#[verifier::external_body]
pub(crate) fn index_len(m: &LinkedHashMap<String, usize, FxBuildHasher>) -> (n: usize)
    ensures
        n == index_entries(*m).len(),
{
    m.len()
}

/// `LinkedHashMap::keys`: the names, oldest first.
#[verifier::external_body]
pub(crate) fn index_names(m: &LinkedHashMap<String, usize, FxBuildHasher>) -> (names: Vec<String>)
    ensures
        names@.len() == index_entries(*m).len(),
        forall|i: int| 0 <= i < names@.len() ==> (#[trigger] names@[i])@ == index_entries(*m)[i].0,
{
    m.keys().cloned().collect()
}

/// `LinkedHashMap::clone`: a map with the same entries in the same order.
#[verifier::external_body]
pub(crate) fn index_clone(m: &LinkedHashMap<String, usize, FxBuildHasher>) -> (copy: LinkedHashMap<
    String,
    usize,
    FxBuildHasher,
>)
    ensures
        index_entries(copy) == index_entries(*m),
{
    m.clone()
}

/// `LinkedHashMap`'s `==`: whether two maps hold the same entries in the same order.
#[verifier::external_body]
pub(crate) fn index_eq(
    a: &LinkedHashMap<String, usize, FxBuildHasher>,
    b: &LinkedHashMap<String, usize, FxBuildHasher>,
) -> (same: bool)
    ensures
        same == (index_entries(*a) == index_entries(*b)),
{
    a == b
}

/// A name that is not among `names` has no position in them, and the other way round.
pub proof fn lemma_position_none(names: Seq<Seq<char>>, name: Seq<char>)
    ensures
        position(names, name) is None <==> forall|i: int|
            0 <= i < names.len() ==> names[i] != name,
    decreases names.len(),
{
    if names.len() > 0 {
        lemma_position_none(names.drop_first(), name);
        if names[0] != name {
            if position(names.drop_first(), name) is None {
                assert forall|i: int| 0 <= i < names.len() implies names[i] != name by {
                    if i > 0 {
                        assert(names.drop_first()[i - 1] == names[i]);
                    }
                }
            } else {
                let j = choose|j: int|
                    0 <= j < names.drop_first().len() && names.drop_first()[j] == name;
                assert(names[j + 1] == name);
            }
        }
    }
}

/// The position of a name is a place where the name stands, and the first such place.
pub proof fn lemma_position_some(names: Seq<Seq<char>>, name: Seq<char>)
    ensures
        position(names, name) matches Some(at) ==> 0 <= at < names.len() && names[at] == name
            && forall|i: int| 0 <= i < at ==> names[i] != name,
    decreases names.len(),
{
    if names.len() > 0 && names[0] != name {
        lemma_position_some(names.drop_first(), name);
        if let Some(at) = position(names.drop_first(), name) {
            assert(names.drop_first()[at] == names[at + 1]);
            assert forall|i: int| 0 <= i < at + 1 implies names[i] != name by {
                if i > 0 {
                    assert(names.drop_first()[i - 1] == names[i]);
                }
            }
        }
    }
}

/// Among distinct names, each name's position is the place where it stands.
pub proof fn lemma_position_of_distinct(names: Seq<Seq<char>>, at: int)
    requires
        distinct(names),
        0 <= at < names.len(),
    ensures
        position(names, names[at]) == Some(at),
{
    lemma_position_some(names, names[at]);
    lemma_position_none(names, names[at]);
    let found = position(names, names[at]);
    assert(found is Some);
    let p = found->0;
    if p < at {
        assert(names[p] != names[at]);
    }
}

/// Whether the map is the index of a group of `n` fields.
pub fn index_is_consistent(m: &LinkedHashMap<String, usize, FxBuildHasher>, n: usize) -> (b: bool)
    ensures
        b == indexes(index_entries(*m), n as nat),
{
    let ghost entries = index_entries(*m);
    let ghost names_view = entry_names(entries);
    if index_len(m) != n {
        return false;
    }
    let names = index_names(m);
    let mut i: usize = 0;
    while i < n
        invariant
            0 <= i <= n,
            entries == index_entries(*m),
            names_view == entry_names(entries),
            entries.len() == n,
            names@.len() == n,
            forall|k: int| 0 <= k < n ==> (#[trigger] names@[k])@ == entries[k].0,
            forall|k: int| 0 <= k < i ==> position(names_view, names_view[k]) == Some(k),
            forall|k: int| 0 <= k < i ==> (#[trigger] entries[k]).1 == k,
        decreases n - i,
    {
        proof {
            lemma_position_some(names_view, names_view[i as int]);
            lemma_position_none(names_view, names_view[i as int]);
        }
        let found = index_get(m, names[i].as_str());
        let good = match found {
            Some(ordinal) => ordinal == i,
            None => false,
        };
        if !good {
            proof {
                let at = position(names_view, names_view[i as int])->0;
                if indexes(entries, n as nat) {
                    lemma_position_of_distinct(names_view, i as int);
                    assert(entries[i as int].1 == i);
                }
            }
            return false;
        }
        proof {
            let at = position(names_view, names_view[i as int])->0;
            assert(entries[at].1 == i);
            if at < i {
                assert(entries[at].1 == at);
            }
        }
        i += 1;
    }
    proof {
        assert forall|a: int, b: int| 0 <= a < b < names_view.len() implies names_view[a]
            != names_view[b] by {
            if names_view[a] == names_view[b] {
                assert(position(names_view, names_view[a]) == Some(a));
                assert(position(names_view, names_view[b]) == Some(b));
            }
        }
    }
    true
}

} // verus!
