//! Equality of a value with a payload: the value is of the payload's variant and
//! holds an equal payload. A value of another variant is not equal, and nothing
//! fails.

use crate::record::index::{index_entries, index_eq};
use crate::record::types::equal::{
    all_equal, bytes_eq, decimal_eq, entries_equal, same_value,
};
use crate::record::types::group::Group;
use crate::record::types::list::List;
use crate::record::types::map::Mapping;
use crate::record::types::value::{entry_views, lemma_entry_views, value_views, Value, ValueView};
use crate::record::types::{Bson, Date, Decimal, Enum, Float32, Float64, Json, Time, Timestamp};
use crate::text::str_eq;
use vstd::prelude::*;
use vstd::std_specs::cmp::{PartialEqSpec, PartialEqSpecImpl};

verus! {

impl PartialEq<bool> for Value {
    fn eq(&self, other: &bool) -> (same: bool) {
        match self {
            Value::Bool(x) => *x == *other,
            _ => false,
        }
    }
}

impl PartialEqSpecImpl<bool> for Value {
    open spec fn obeys_eq_spec() -> bool {
        true
    }

    open spec fn eq_spec(&self, other: &bool) -> bool {
        same_value(self@, ValueView::Bool(*other))
    }
}

impl PartialEq<u8> for Value {
    fn eq(&self, other: &u8) -> (same: bool) {
        match self {
            Value::U8(x) => *x == *other,
            _ => false,
        }
    }
}

impl PartialEqSpecImpl<u8> for Value {
    open spec fn obeys_eq_spec() -> bool {
        true
    }

    open spec fn eq_spec(&self, other: &u8) -> bool {
        same_value(self@, ValueView::U8(*other))
    }
}

impl PartialEq<i8> for Value {
    fn eq(&self, other: &i8) -> (same: bool) {
        match self {
            Value::I8(x) => *x == *other,
            _ => false,
        }
    }
}

impl PartialEqSpecImpl<i8> for Value {
    open spec fn obeys_eq_spec() -> bool {
        true
    }

    open spec fn eq_spec(&self, other: &i8) -> bool {
        same_value(self@, ValueView::I8(*other))
    }
}

impl PartialEq<u16> for Value {
    fn eq(&self, other: &u16) -> (same: bool) {
        match self {
            Value::U16(x) => *x == *other,
            _ => false,
        }
    }
}

impl PartialEqSpecImpl<u16> for Value {
    open spec fn obeys_eq_spec() -> bool {
        true
    }

    open spec fn eq_spec(&self, other: &u16) -> bool {
        same_value(self@, ValueView::U16(*other))
    }
}

impl PartialEq<i16> for Value {
    fn eq(&self, other: &i16) -> (same: bool) {
        match self {
            Value::I16(x) => *x == *other,
            _ => false,
        }
    }
}

impl PartialEqSpecImpl<i16> for Value {
    open spec fn obeys_eq_spec() -> bool {
        true
    }

    open spec fn eq_spec(&self, other: &i16) -> bool {
        same_value(self@, ValueView::I16(*other))
    }
}

impl PartialEq<u32> for Value {
    fn eq(&self, other: &u32) -> (same: bool) {
        match self {
            Value::U32(x) => *x == *other,
            _ => false,
        }
    }
}

impl PartialEqSpecImpl<u32> for Value {
    open spec fn obeys_eq_spec() -> bool {
        true
    }

    open spec fn eq_spec(&self, other: &u32) -> bool {
        same_value(self@, ValueView::U32(*other))
    }
}

impl PartialEq<i32> for Value {
    fn eq(&self, other: &i32) -> (same: bool) {
        match self {
            Value::I32(x) => *x == *other,
            _ => false,
        }
    }
}

impl PartialEqSpecImpl<i32> for Value {
    open spec fn obeys_eq_spec() -> bool {
        true
    }

    open spec fn eq_spec(&self, other: &i32) -> bool {
        same_value(self@, ValueView::I32(*other))
    }
}

impl PartialEq<u64> for Value {
    fn eq(&self, other: &u64) -> (same: bool) {
        match self {
            Value::U64(x) => *x == *other,
            _ => false,
        }
    }
}

impl PartialEqSpecImpl<u64> for Value {
    open spec fn obeys_eq_spec() -> bool {
        true
    }

    open spec fn eq_spec(&self, other: &u64) -> bool {
        same_value(self@, ValueView::U64(*other))
    }
}

impl PartialEq<i64> for Value {
    fn eq(&self, other: &i64) -> (same: bool) {
        match self {
            Value::I64(x) => *x == *other,
            _ => false,
        }
    }
}

impl PartialEqSpecImpl<i64> for Value {
    open spec fn obeys_eq_spec() -> bool {
        true
    }

    open spec fn eq_spec(&self, other: &i64) -> bool {
        same_value(self@, ValueView::I64(*other))
    }
}

impl PartialEq<Float32> for Value {
    fn eq(&self, other: &Float32) -> (same: bool) {
        match self {
            Value::F32(x) => x.same(other),
            _ => false,
        }
    }
}

impl PartialEqSpecImpl<Float32> for Value {
    open spec fn obeys_eq_spec() -> bool {
        true
    }

    open spec fn eq_spec(&self, other: &Float32) -> bool {
        same_value(self@, ValueView::F32(other.bits))
    }
}

impl PartialEq<Float64> for Value {
    fn eq(&self, other: &Float64) -> (same: bool) {
        match self {
            Value::F64(x) => x.same(other),
            _ => false,
        }
    }
}

impl PartialEqSpecImpl<Float64> for Value {
    open spec fn obeys_eq_spec() -> bool {
        true
    }

    open spec fn eq_spec(&self, other: &Float64) -> bool {
        same_value(self@, ValueView::F64(other.bits))
    }
}

impl PartialEq<Date> for Value {
    fn eq(&self, other: &Date) -> (same: bool) {
        match self {
            Value::Date(x) => x.0 == other.0,
            _ => false,
        }
    }
}

impl PartialEqSpecImpl<Date> for Value {
    open spec fn obeys_eq_spec() -> bool {
        true
    }

    open spec fn eq_spec(&self, other: &Date) -> bool {
        same_value(self@, ValueView::Date(*other))
    }
}

impl PartialEq<Time> for Value {
    fn eq(&self, other: &Time) -> (same: bool) {
        match self {
            Value::Time(x) => x.0 == other.0,
            _ => false,
        }
    }
}

impl PartialEqSpecImpl<Time> for Value {
    open spec fn obeys_eq_spec() -> bool {
        true
    }

    open spec fn eq_spec(&self, other: &Time) -> bool {
        same_value(self@, ValueView::Time(*other))
    }
}

impl PartialEq<Timestamp> for Value {
    fn eq(&self, other: &Timestamp) -> (same: bool) {
        match self {
            Value::Timestamp(x) => *x == *other,
            _ => false,
        }
    }
}

impl PartialEqSpecImpl<Timestamp> for Value {
    open spec fn obeys_eq_spec() -> bool {
        true
    }

    open spec fn eq_spec(&self, other: &Timestamp) -> bool {
        same_value(self@, ValueView::Timestamp(*other))
    }
}

impl PartialEq<Decimal> for Value {
    fn eq(&self, other: &Decimal) -> (same: bool) {
        match self {
            Value::Decimal(x) => decimal_eq(x, other),
            _ => false,
        }
    }
}

impl PartialEqSpecImpl<Decimal> for Value {
    open spec fn obeys_eq_spec() -> bool {
        true
    }

    open spec fn eq_spec(&self, other: &Decimal) -> bool {
        same_value(self@, ValueView::Decimal(other@))
    }
}

impl PartialEq<Vec<u8>> for Value {
    fn eq(&self, other: &Vec<u8>) -> (same: bool) {
        match self {
            Value::ByteArray(x) => bytes_eq(x, other),
            _ => false,
        }
    }
}

impl PartialEqSpecImpl<Vec<u8>> for Value {
    open spec fn obeys_eq_spec() -> bool {
        true
    }

    open spec fn eq_spec(&self, other: &Vec<u8>) -> bool {
        same_value(self@, ValueView::ByteArray(other@))
    }
}

impl PartialEq<Bson> for Value {
    fn eq(&self, other: &Bson) -> (same: bool) {
        match self {
            Value::Bson(x) => bytes_eq(&x.0, &other.0),
            _ => false,
        }
    }
}

impl PartialEqSpecImpl<Bson> for Value {
    open spec fn obeys_eq_spec() -> bool {
        true
    }

    open spec fn eq_spec(&self, other: &Bson) -> bool {
        same_value(self@, ValueView::Bson(other.0@))
    }
}

impl PartialEq<String> for Value {
    fn eq(&self, other: &String) -> (same: bool) {
        match self {
            Value::String(x) => str_eq(x.as_str(), other.as_str()),
            _ => false,
        }
    }
}

impl PartialEqSpecImpl<String> for Value {
    open spec fn obeys_eq_spec() -> bool {
        true
    }

    open spec fn eq_spec(&self, other: &String) -> bool {
        same_value(self@, ValueView::String(other@))
    }
}

impl PartialEq<Json> for Value {
    fn eq(&self, other: &Json) -> (same: bool) {
        match self {
            Value::Json(x) => str_eq(x.0.as_str(), other.0.as_str()),
            _ => false,
        }
    }
}

impl PartialEqSpecImpl<Json> for Value {
    open spec fn obeys_eq_spec() -> bool {
        true
    }

    open spec fn eq_spec(&self, other: &Json) -> bool {
        same_value(self@, ValueView::Json(other.0@))
    }
}

impl PartialEq<Enum> for Value {
    fn eq(&self, other: &Enum) -> (same: bool) {
        match self {
            Value::Enum(x) => str_eq(x.0.as_str(), other.0.as_str()),
            _ => false,
        }
    }
}

impl PartialEqSpecImpl<Enum> for Value {
    open spec fn obeys_eq_spec() -> bool {
        true
    }

    open spec fn eq_spec(&self, other: &Enum) -> bool {
        same_value(self@, ValueView::Enum(other.0@))
    }
}

impl PartialEq<Mapping<Value, Value>> for Value {
    fn eq(&self, other: &Mapping<Value, Value>) -> (same: bool) {
        match self {
            Value::Mapping(x) => {
                proof {
                    lemma_entry_views(x.0@);
                    lemma_entry_views(other.0@);
                }
                entries_equal(&x.0, &other.0)
            },
            _ => false,
        }
    }
}

impl PartialEqSpecImpl<Mapping<Value, Value>> for Value {
    open spec fn obeys_eq_spec() -> bool {
        true
    }

    open spec fn eq_spec(&self, other: &Mapping<Value, Value>) -> bool {
        same_value(self@, ValueView::Mapping(entry_views(other.0@)))
    }
}

impl PartialEq<Group> for Value {
    fn eq(&self, other: &Group) -> (same: bool) {
        match self {
            Value::Group(x) => all_equal(&x.0, &other.0) && index_eq(&x.1, &other.1),
            _ => false,
        }
    }
}

impl PartialEqSpecImpl<Group> for Value {
    open spec fn obeys_eq_spec() -> bool {
        true
    }

    open spec fn eq_spec(&self, other: &Group) -> bool {
        same_value(self@, ValueView::Group { fields: value_views(other.0@), index: index_entries(*other.1) })
    }
}

impl<T> PartialEq<List<T>> for Value where Value: PartialEq<T> {
    fn eq(&self, other: &List<T>) -> (same: bool) {
        match self {
            Value::List(x) => {
                if x.0.len() != other.0.len() {
                    return false;
                }
                let mut i: usize = 0;
                while i < x.0.len()
                    invariant
                        0 <= i <= x.0.len(),
                        x.0.len() == other.0.len(),
                        self matches Value::List(l) && l == x,
                        <Value as PartialEqSpec<T>>::obeys_eq_spec() ==> forall|k: int|
                            0 <= k < i ==> <Value as PartialEqSpec<T>>::eq_spec(
                                #[trigger] &x.0@[k],
                                &other.0@[k],
                            ),
                    decreases x.0.len() - i,
                {
                    if !x.0[i].eq(&other.0[i]) {
                        proof {
                            let same = <Value as PartialEqSpec<T>>::eq_spec(
                                &self->List_0.0@[i as int],
                                &other.0@[i as int],
                            );
                            assert(<Value as PartialEqSpec<T>>::obeys_eq_spec() ==> !same);
                        }
                        return false;
                    }
                    i += 1;
                }
                true
            },
            _ => false,
        }
    }
}

impl<T> PartialEqSpecImpl<List<T>> for Value where Value: PartialEq<T> {
    open spec fn obeys_eq_spec() -> bool {
        <Value as PartialEqSpec<T>>::obeys_eq_spec()
    }

    open spec fn eq_spec(&self, other: &List<T>) -> bool {
        &&& *self is List
        &&& self->List_0.0@.len() == other.0@.len()
        &&& forall|k: int|
            0 <= k < other.0@.len() ==> <Value as PartialEqSpec<T>>::eq_spec(
                #[trigger] &self->List_0.0@[k],
                &other.0@[k],
            )
    }
}

impl<T> PartialEq<Option<T>> for Value where Value: PartialEq<T> {
    fn eq(&self, other: &Option<T>) -> (same: bool) {
        match self {
            Value::Option(Some(x)) => match other {
                Some(y) => {
                    let inner: &Value = x;
                    inner.eq(y)
                },
                None => false,
            },
            Value::Option(None) => other.is_none(),
            _ => false,
        }
    }
}

impl<T> PartialEqSpecImpl<Option<T>> for Value where Value: PartialEq<T> {
    open spec fn obeys_eq_spec() -> bool {
        <Value as PartialEqSpec<T>>::obeys_eq_spec()
    }

    open spec fn eq_spec(&self, other: &Option<T>) -> bool {
        match (*self, *other) {
            (Value::Option(Some(x)), Some(y)) => <Value as PartialEqSpec<T>>::eq_spec(&*x, &y),
            (Value::Option(None), None) => true,
            _ => false,
        }
    }
}

} // verus!
