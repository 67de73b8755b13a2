//! Equality of values. Two values are equal when they are of the same variant and
//! their payloads are equal: numbers as numbers, floating point numbers as the
//! interchange format compares them, lists element by element, maps entry by entry
//! whatever the order of the entries, groups field by field with the same names.

use crate::record::index::index_eq;
use crate::record::types::group::Group;
use crate::record::types::list::List;
use crate::record::types::map::Mapping;
use crate::record::types::value::{
    entry_views, lemma_entry_views, lemma_value_views, value_views, Value, ValueView,
};
use crate::record::types::{Bson, Decimal, Enum, Float32, Float64, Json};
use crate::text::str_eq;
use vstd::prelude::*;
use vstd::std_specs::cmp::PartialEqSpecImpl;

verus! {

/// Whether the bits are those of a 32-bit value that is not a number.
pub open spec fn is_nan32(bits: u32) -> bool {
    bits & 0x7f80_0000u32 == 0x7f80_0000u32 && bits & 0x007f_ffffu32 != 0u32
}

/// Whether two 32-bit floating point numbers, given by their bits, compare as equal:
/// neither is not a number, and they have the same bits or are both zero.
pub open spec fn float32_eq(a: u32, b: u32) -> bool {
    !is_nan32(a) && !is_nan32(b) && (a == b || (a | b) & 0x7fff_ffffu32 == 0u32)
}

/// Whether the bits are those of a 64-bit value that is not a number.
pub open spec fn is_nan64(bits: u64) -> bool {
    bits & 0x7ff0_0000_0000_0000u64 == 0x7ff0_0000_0000_0000u64 && bits
        & 0x000f_ffff_ffff_ffffu64 != 0u64
}

/// Whether two 64-bit floating point numbers, given by their bits, compare as equal.
pub open spec fn float64_eq(a: u64, b: u64) -> bool {
    !is_nan64(a) && !is_nan64(b) && (a == b || (a | b) & 0x7fff_ffff_ffff_ffffu64 == 0u64)
}

impl Float32 {
    /// Whether the value is not a number.
    pub fn is_nan(&self) -> (b: bool)
        ensures
            b == is_nan32(self.bits),
    {
        self.bits & 0x7f80_0000u32 == 0x7f80_0000u32 && self.bits & 0x007f_ffffu32 != 0u32
    }

    /// Whether the two numbers compare as equal.
    pub fn same(&self, other: &Float32) -> (b: bool)
        ensures
            b == float32_eq(self.bits, other.bits),
    {
        !self.is_nan() && !other.is_nan() && (self.bits == other.bits || (self.bits | other.bits)
            & 0x7fff_ffffu32 == 0u32)
    }
}

impl Float64 {
    /// Whether the value is not a number.
    pub fn is_nan(&self) -> (b: bool)
        ensures
            b == is_nan64(self.bits),
    {
        self.bits & 0x7ff0_0000_0000_0000u64 == 0x7ff0_0000_0000_0000u64 && self.bits
            & 0x000f_ffff_ffff_ffffu64 != 0u64
    }

    /// Whether the two numbers compare as equal.
    pub fn same(&self, other: &Float64) -> (b: bool)
        ensures
            b == float64_eq(self.bits, other.bits),
    {
        !self.is_nan() && !other.is_nan() && (self.bits == other.bits || (self.bits | other.bits)
            & 0x7fff_ffff_ffff_ffffu64 == 0u64)
    }
}

/// Whether two sequences of values are equal: as long as each other, and equal
/// position by position.
pub open spec fn same_values(a: Seq<ValueView>, b: Seq<ValueView>) -> bool
    decreases a, 0nat,
{
    a.len() == b.len() && (a.len() == 0 || (same_values(a.drop_last(), b.drop_last())
        && same_value(a.last(), b.last())))
}

/// The position of the first entry of `entries` whose key equals `key`.
pub open spec fn lookup(entries: Seq<(ValueView, ValueView)>, key: ValueView) -> Option<int>
    decreases key, entries.len() + 1,
{
    if entries.len() == 0 {
        None
    } else {
        match lookup(entries.drop_last(), key) {
            Some(at) => Some(at),
            None => if same_value(key, entries.last().0) {
                Some(entries.len() - 1)
            } else {
                None
            },
        }
    }
}

/// Whether `entries` hold an equal value under the key of `entry`.
pub open spec fn found(entries: Seq<(ValueView, ValueView)>, entry: (ValueView, ValueView)) -> bool
    decreases entry, 0nat,
{
    match lookup(entries, entry.0) {
        Some(at) => same_value(entry.1, entries[at].1),
        None => false,
    }
}

/// Whether every entry of `a` is found in `b`.
pub open spec fn all_found(
    a: Seq<(ValueView, ValueView)>,
    b: Seq<(ValueView, ValueView)>,
) -> bool
    decreases a, 0nat,
{
    a.len() == 0 || (all_found(a.drop_last(), b) && found(b, a.last()))
}

/// Whether two values are equal.
pub open spec fn same_value(a: ValueView, b: ValueView) -> bool
    decreases a, 0nat,
{
    match (a, b) {
        (ValueView::Bool(x), ValueView::Bool(y)) => x == y,
        (ValueView::U8(x), ValueView::U8(y)) => x == y,
        (ValueView::I8(x), ValueView::I8(y)) => x == y,
        (ValueView::U16(x), ValueView::U16(y)) => x == y,
        (ValueView::I16(x), ValueView::I16(y)) => x == y,
        (ValueView::U32(x), ValueView::U32(y)) => x == y,
        (ValueView::I32(x), ValueView::I32(y)) => x == y,
        (ValueView::U64(x), ValueView::U64(y)) => x == y,
        (ValueView::I64(x), ValueView::I64(y)) => x == y,
        (ValueView::F32(x), ValueView::F32(y)) => float32_eq(x, y),
        (ValueView::F64(x), ValueView::F64(y)) => float64_eq(x, y),
        (ValueView::Date(x), ValueView::Date(y)) => x == y,
        (ValueView::Time(x), ValueView::Time(y)) => x == y,
        (ValueView::Timestamp(x), ValueView::Timestamp(y)) => x == y,
        (ValueView::Decimal(x), ValueView::Decimal(y)) => x == y,
        (ValueView::ByteArray(x), ValueView::ByteArray(y)) => x == y,
        (ValueView::Bson(x), ValueView::Bson(y)) => x == y,
        (ValueView::String(x), ValueView::String(y)) => x == y,
        (ValueView::Json(x), ValueView::Json(y)) => x == y,
        (ValueView::Enum(x), ValueView::Enum(y)) => x == y,
        (ValueView::List(x), ValueView::List(y)) => same_values(x, y),
        (ValueView::Mapping(x), ValueView::Mapping(y)) => x.len() == y.len() && all_found(x, y),
        (
            ValueView::Group { fields: x, index: names },
            ValueView::Group { fields: y, index: other_names },
        ) => same_values(x, y) && names == other_names,
        (ValueView::Option(None), ValueView::Option(None)) => true,
        (ValueView::Option(Some(x)), ValueView::Option(Some(y))) => same_value(*x, *y),
        _ => false,
    }
}

/// Two sequences of values are equal exactly when they are as long as each other and
/// equal at every position.
pub proof fn lemma_same_values(a: Seq<ValueView>, b: Seq<ValueView>)
    ensures
        same_values(a, b) <==> a.len() == b.len() && forall|i: int|
            0 <= i < a.len() ==> same_value(#[trigger] a[i], b[i]),
    decreases a.len(),
{
    if a.len() == b.len() && a.len() > 0 {
        lemma_same_values(a.drop_last(), b.drop_last());
        if same_values(a, b) {
            assert forall|i: int| 0 <= i < a.len() implies same_value(#[trigger] a[i], b[i]) by {
                if i < a.len() - 1 {
                    assert(a.drop_last()[i] == a[i]);
                    assert(b.drop_last()[i] == b[i]);
                }
            }
        } else if forall|i: int| 0 <= i < a.len() ==> same_value(#[trigger] a[i], b[i]) {
            assert forall|i: int| 0 <= i < a.drop_last().len() implies same_value(
                #[trigger] a.drop_last()[i],
                b.drop_last()[i],
            ) by {
                assert(a.drop_last()[i] == a[i]);
                assert(b.drop_last()[i] == b[i]);
            }
            assert(same_value(a[a.len() - 1], b[a.len() - 1]));
        }
    }
}

/// Every entry of `a` is found in `b` exactly when each one is.
pub proof fn lemma_all_found(a: Seq<(ValueView, ValueView)>, b: Seq<(ValueView, ValueView)>)
    ensures
        all_found(a, b) <==> forall|i: int| 0 <= i < a.len() ==> found(b, #[trigger] a[i]),
    decreases a.len(),
{
    if a.len() > 0 {
        lemma_all_found(a.drop_last(), b);
        if all_found(a, b) {
            assert forall|i: int| 0 <= i < a.len() implies found(b, #[trigger] a[i]) by {
                if i < a.len() - 1 {
                    assert(a.drop_last()[i] == a[i]);
                }
            }
        } else if forall|i: int| 0 <= i < a.len() ==> found(b, #[trigger] a[i]) {
            assert forall|i: int| 0 <= i < a.drop_last().len() implies found(
                b,
                #[trigger] a.drop_last()[i],
            ) by {
                assert(a.drop_last()[i] == a[i]);
            }
            assert(found(b, a[a.len() - 1]));
        }
    }
}

/// Whether two byte arrays hold the same bytes.
pub fn bytes_eq(a: &Vec<u8>, b: &Vec<u8>) -> (same: bool)
    ensures
        same == (a@ == b@),
{
    if a.len() != b.len() {
        return false;
    }
    let mut i: usize = 0;
    while i < a.len()
        invariant
            0 <= i <= a.len(),
            a.len() == b.len(),
            forall|k: int| 0 <= k < i ==> a@[k] == b@[k],
        decreases a.len() - i,
    {
        if a[i] != b[i] {
            return false;
        }
        i += 1;
    }
    assert(a@ =~= b@);
    true
}

/// Whether two decimals are the same: of the same form, with the same unscaled
/// value, precision and scale.
pub fn decimal_eq(a: &Decimal, b: &Decimal) -> (same: bool)
    ensures
        same == (a@ == b@),
{
    match (a, b) {
        (
            Decimal::Int32 { value, precision, scale },
            Decimal::Int32 { value: v, precision: p, scale: s },
        ) => *value == *v && *precision == *p && *scale == *s,
        (
            Decimal::Int64 { value, precision, scale },
            Decimal::Int64 { value: v, precision: p, scale: s },
        ) => *value == *v && *precision == *p && *scale == *s,
        (
            Decimal::Bytes { value, precision, scale },
            Decimal::Bytes { value: v, precision: p, scale: s },
        ) => bytes_eq(value, v) && *precision == *p && *scale == *s,
        _ => false,
    }
}

/// Whether two sequences of values are equal.
pub fn all_equal(a: &Vec<Value>, b: &Vec<Value>) -> (same: bool)
    ensures
        same == same_values(value_views(a@), value_views(b@)),
    decreases *a, 1nat,
{
    proof {
        lemma_value_views(a@);
        lemma_value_views(b@);
        lemma_same_values(value_views(a@), value_views(b@));
    }
    if a.len() != b.len() {
        return false;
    }
    let mut i: usize = 0;
    while i < a.len()
        invariant
            0 <= i <= a.len(),
            a.len() == b.len(),
            forall|k: int| 0 <= k < i ==> same_value(#[trigger] a@[k]@, b@[k]@),
        decreases a.len() - i,
    {
        if !values_equal(&a[i], &b[i]) {
            proof {
                lemma_value_views(a@);
                lemma_value_views(b@);
                lemma_same_values(value_views(a@), value_views(b@));
                assert(value_views(a@)[i as int] == a@[i as int]@);
            }
            return false;
        }
        i += 1;
    }
    proof {
        assert forall|k: int| 0 <= k < value_views(a@).len() implies same_value(
            #[trigger] value_views(a@)[k],
            value_views(b@)[k],
        ) by {
            assert(same_value(a@[k]@, b@[k]@));
        }
    }
    true
}

/// Returns the position of the first entry whose key equals `key`.
pub fn find_entry(entries: &Vec<(Value, Value)>, key: &Value) -> (at: Option<usize>)
    ensures
        match at {
            Some(i) => lookup(entry_views(entries@), key@) == Some(i as int) && i < entries.len(),
            None => lookup(entry_views(entries@), key@) is None,
        },
    decreases *key, 1nat,
{
    let ghost views = entry_views(entries@);
    proof {
        lemma_entry_views(entries@);
        assert(views.take(0) =~= Seq::<(ValueView, ValueView)>::empty());
    }
    let mut i: usize = 0;
    while i < entries.len()
        invariant
            0 <= i <= entries.len(),
            views == entry_views(entries@),
            views.len() == entries.len(),
            forall|k: int|
                0 <= k < views.len() ==> #[trigger] views[k] == (entries@[k].0@, entries@[k].1@),
            lookup(views.take(i as int), key@) is None,
        decreases entries.len() - i,
    {
        proof {
            assert(views.take(i + 1).drop_last() =~= views.take(i as int));
            assert(views.take(i + 1).last() == views[i as int]);
        }
        if values_equal(key, &entries[i].0) {
            proof {
                lemma_lookup_extends(views, i + 1, key@);
            }
            return Some(i);
        }
        i += 1;
    }
    assert(views.take(i as int) =~= views);
    None
}

/// A key that is found among the first entries is found at the same place among all.
pub proof fn lemma_lookup_extends(
    entries: Seq<(ValueView, ValueView)>,
    upto: int,
    key: ValueView,
)
    requires
        0 <= upto <= entries.len(),
        lookup(entries.take(upto), key) is Some,
    ensures
        lookup(entries, key) == lookup(entries.take(upto), key),
    decreases entries.len() - upto,
{
    if upto < entries.len() {
        assert(entries.take(upto + 1).drop_last() =~= entries.take(upto));
        lemma_lookup_extends(entries, upto + 1, key);
    } else {
        assert(entries.take(upto) =~= entries);
    }
}

/// Whether two maps hold equal entries: as many, and for every entry of the first an
/// entry of the second with an equal key and an equal value.
pub fn entries_equal(a: &Vec<(Value, Value)>, b: &Vec<(Value, Value)>) -> (same: bool)
    ensures
        same == (a@.len() == b@.len() && all_found(entry_views(a@), entry_views(b@))),
    decreases *a, 2nat,
{
    proof {
        lemma_entry_views(a@);
        lemma_entry_views(b@);
        lemma_all_found(entry_views(a@), entry_views(b@));
    }
    if a.len() != b.len() {
        return false;
    }
    let mut i: usize = 0;
    while i < a.len()
        invariant
            0 <= i <= a.len(),
            forall|k: int| 0 <= k < i ==> found(entry_views(b@), #[trigger] entry_views(a@)[k]),
        decreases a.len() - i,
    {
        proof {
            lemma_entry_views(a@);
            lemma_entry_views(b@);
            lemma_all_found(entry_views(a@), entry_views(b@));
        }
        let hit = match find_entry(b, &a[i].0) {
            Some(at) => values_equal(&a[i].1, &b[at].1),
            None => false,
        };
        if !hit {
            assert(!found(entry_views(b@), entry_views(a@)[i as int]));
            return false;
        }
        i += 1;
    }
    true
}

/// Whether two values are equal.
pub fn values_equal(a: &Value, b: &Value) -> (same: bool)
    ensures
        same == same_value(a@, b@),
    decreases *a, 0nat,
{
    match a {
        Value::Bool(x) => match b {
            Value::Bool(y) => *x == *y,
            _ => false,
        },
        Value::U8(x) => match b {
            Value::U8(y) => *x == *y,
            _ => false,
        },
        Value::I8(x) => match b {
            Value::I8(y) => *x == *y,
            _ => false,
        },
        Value::U16(x) => match b {
            Value::U16(y) => *x == *y,
            _ => false,
        },
        Value::I16(x) => match b {
            Value::I16(y) => *x == *y,
            _ => false,
        },
        Value::U32(x) => match b {
            Value::U32(y) => *x == *y,
            _ => false,
        },
        Value::I32(x) => match b {
            Value::I32(y) => *x == *y,
            _ => false,
        },
        Value::U64(x) => match b {
            Value::U64(y) => *x == *y,
            _ => false,
        },
        Value::I64(x) => match b {
            Value::I64(y) => *x == *y,
            _ => false,
        },
        Value::F32(x) => match b {
            Value::F32(y) => x.same(y),
            _ => false,
        },
        Value::F64(x) => match b {
            Value::F64(y) => x.same(y),
            _ => false,
        },
        Value::Date(x) => match b {
            Value::Date(y) => x.0 == y.0,
            _ => false,
        },
        Value::Time(x) => match b {
            Value::Time(y) => x.0 == y.0,
            _ => false,
        },
        Value::Timestamp(x) => match b {
            Value::Timestamp(y) => *x == *y,
            _ => false,
        },
        Value::Decimal(x) => match b {
            Value::Decimal(y) => decimal_eq(x, y),
            _ => false,
        },
        Value::ByteArray(x) => match b {
            Value::ByteArray(y) => bytes_eq(x, y),
            _ => false,
        },
        Value::Bson(x) => match b {
            Value::Bson(y) => bytes_eq(&x.0, &y.0),
            _ => false,
        },
        Value::String(x) => match b {
            Value::String(y) => str_eq(x.as_str(), y.as_str()),
            _ => false,
        },
        Value::Json(x) => match b {
            Value::Json(y) => str_eq(x.0.as_str(), y.0.as_str()),
            _ => false,
        },
        Value::Enum(x) => match b {
            Value::Enum(y) => str_eq(x.0.as_str(), y.0.as_str()),
            _ => false,
        },
        Value::List(x) => match b {
            Value::List(y) => all_equal(&x.0, &y.0),
            _ => false,
        },
        Value::Mapping(x) => match b {
            Value::Mapping(y) => {
                proof {
                    lemma_entry_views(x.0@);
                    lemma_entry_views(y.0@);
                }
                entries_equal(&x.0, &y.0)
            },
            _ => false,
        },
        Value::Group(x) => match b {
            Value::Group(y) => all_equal(&x.0, &y.0) && index_eq(&x.1, &y.1),
            _ => false,
        },
        Value::Option(None) => match b {
            Value::Option(None) => true,
            _ => false,
        },
        Value::Option(Some(x)) => match b {
            Value::Option(Some(y)) => values_equal(x, y),
            _ => false,
        },
    }
}

impl PartialEq for Value {
    /// Whether two values are equal.
    fn eq(&self, other: &Value) -> (same: bool) {
        values_equal(self, other)
    }
}

impl PartialEqSpecImpl for Value {
    open spec fn obeys_eq_spec() -> bool {
        true
    }

    open spec fn eq_spec(&self, other: &Value) -> bool {
        same_value(self@, other@)
    }
}

impl Eq for Value {

}

} // verus!
