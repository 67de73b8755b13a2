//! Hashing of values. A value is hashed by the bytes it feeds to the hasher: first a
//! tag that tells its variant, then, for the variants that are hashed by content, the
//! content. Floating point numbers, decimals, maps and groups feed their tag alone.

use crate::errors::ValueKind;
use crate::record::types::equal::{same_value, same_values};
use crate::record::types::value::{lemma_value_views, view_kind, Value, ValueView};
use crate::record::types::Timestamp;
use std::hash::Hasher;
use vstd::bytes::{
    spec_u16_to_le_bytes, spec_u32_to_le_bytes, spec_u64_to_le_bytes, u16_to_le_bytes,
    u32_to_le_bytes, u64_to_le_bytes,
};
use vstd::prelude::*;
use vstd::utf8::encode_utf8;

verus! {

/// The byte that tells a variant to the hasher.
pub open spec fn tag(kind: ValueKind) -> u8 {
    match kind {
        ValueKind::Bool => 0,
        ValueKind::U8 => 1,
        ValueKind::I8 => 2,
        ValueKind::U16 => 3,
        ValueKind::I16 => 4,
        ValueKind::U32 => 5,
        ValueKind::I32 => 6,
        ValueKind::U64 => 7,
        ValueKind::I64 => 8,
        ValueKind::F32 => 9,
        ValueKind::F64 => 10,
        ValueKind::Date => 11,
        ValueKind::Time => 12,
        ValueKind::Timestamp => 13,
        ValueKind::Decimal => 14,
        ValueKind::ByteArray => 15,
        ValueKind::Bson => 16,
        ValueKind::String => 17,
        ValueKind::Json => 18,
        ValueKind::Enum => 19,
        ValueKind::List => 20,
        ValueKind::Mapping => 21,
        ValueKind::Group => 22,
        ValueKind::Option => 23,
    }
}

/// Whether the values of a variant are hashed by their content, and not by their tag
/// alone.
pub open spec fn hashed_by_content(kind: ValueKind) -> bool {
    !(kind == ValueKind::F32 || kind == ValueKind::F64 || kind == ValueKind::Decimal || kind
        == ValueKind::Mapping || kind == ValueKind::Group)
}

/// Bytes behind their number, which is given in 8 bytes.
pub open spec fn with_length(bytes: Seq<u8>) -> Seq<u8> {
    spec_u64_to_le_bytes(bytes.len() as u64) + bytes
}

/// The bytes that a timestamp feeds: which form it has, then its numbers.
pub open spec fn timestamp_feed(t: Timestamp) -> Seq<u8> {
    match t {
        Timestamp::Int96 { julian_day, nanos_of_day } => seq![0u8] + spec_u32_to_le_bytes(
            julian_day,
        ) + spec_u64_to_le_bytes(nanos_of_day),
        Timestamp::Millis(millis) => seq![1u8] + spec_u64_to_le_bytes(millis as u64),
        Timestamp::Micros(micros) => seq![2u8] + spec_u64_to_le_bytes(micros as u64),
    }
}

/// The bytes that the values of a list feed, one value after the other.
pub open spec fn feed_all(values: Seq<ValueView>) -> Seq<u8>
    decreases values,
{
    if values.len() == 0 {
        Seq::empty()
    } else {
        feed_all(values.drop_last()) + feed(values.last())
    }
}

/// The bytes that a value feeds to a hasher: its tag, then its content where its
/// variant is hashed by content. Numbers are given least significant byte first,
/// strings and byte arrays behind their length, a list as the number of its elements
/// and what each of them feeds, an optional value as a byte that tells whether it is
/// present and what it feeds if it is.
pub open spec fn feed(v: ValueView) -> Seq<u8>
    decreases v,
{
    seq![tag(view_kind(v))] + (match v {
        ValueView::Bool(b) => seq![if b { 1u8 } else { 0u8 }],
        ValueView::U8(x) => seq![x],
        ValueView::I8(x) => seq![x as u8],
        ValueView::U16(x) => spec_u16_to_le_bytes(x),
        ValueView::I16(x) => spec_u16_to_le_bytes(x as u16),
        ValueView::U32(x) => spec_u32_to_le_bytes(x),
        ValueView::I32(x) => spec_u32_to_le_bytes(x as u32),
        ValueView::U64(x) => spec_u64_to_le_bytes(x),
        ValueView::I64(x) => spec_u64_to_le_bytes(x as u64),
        ValueView::Date(d) => spec_u32_to_le_bytes(d.0 as u32),
        ValueView::Time(t) => spec_u64_to_le_bytes(t.0),
        ValueView::Timestamp(t) => timestamp_feed(t),
        ValueView::ByteArray(b) => with_length(b),
        ValueView::Bson(b) => with_length(b),
        ValueView::String(s) => with_length(encode_utf8(s)),
        ValueView::Json(s) => with_length(encode_utf8(s)),
        ValueView::Enum(s) => with_length(encode_utf8(s)),
        ValueView::List(values) => spec_u64_to_le_bytes(values.len() as u64) + feed_all(values),
        ValueView::Option(None) => seq![0u8],
        ValueView::Option(Some(inner)) => seq![1u8] + feed(*inner),
        _ => Seq::empty(),
    })
}

/// `Hasher::write`: hands `bytes` to the hasher.
#[verifier::external_body]
pub(crate) fn feed_hasher<H: Hasher>(state: &mut H, bytes: &[u8]) {
    state.write(bytes)
}

/// Appends `bytes` behind their number.
fn push_with_length(out: &mut Vec<u8>, bytes: &[u8])
    ensures
        final(out)@ == old(out)@ + with_length(bytes@),
{
    let length = u64_to_le_bytes(bytes.len() as u64);
    out.extend_from_slice(length.as_slice());
    out.extend_from_slice(bytes);
    assert(out@ =~= old(out)@ + with_length(bytes@));
}

impl Value {
    /// Returns the byte that tells the value's variant to a hasher.
    pub fn kind_tag(&self) -> (t: u8)
        ensures
            t == tag(self.kind_of()),
            t == tag(view_kind(self@)),
    {
        match self {
            Value::Bool(_) => 0,
            Value::U8(_) => 1,
            Value::I8(_) => 2,
            Value::U16(_) => 3,
            Value::I16(_) => 4,
            Value::U32(_) => 5,
            Value::I32(_) => 6,
            Value::U64(_) => 7,
            Value::I64(_) => 8,
            Value::F32(_) => 9,
            Value::F64(_) => 10,
            Value::Date(_) => 11,
            Value::Time(_) => 12,
            Value::Timestamp(_) => 13,
            Value::Decimal(_) => 14,
            Value::ByteArray(_) => 15,
            Value::Bson(_) => 16,
            Value::String(_) => 17,
            Value::Json(_) => 18,
            Value::Enum(_) => 19,
            Value::List(_) => 20,
            Value::Mapping(_) => 21,
            Value::Group(_) => 22,
            Value::Option(_) => 23,
        }
    }

    /// Appends to `out` the bytes that the value feeds to a hasher.
    pub fn write_feed(&self, out: &mut Vec<u8>)
        ensures
            final(out)@ == old(out)@ + feed(self@),
        decreases *self,
    {
        let ghost before = out@;
        out.push(self.kind_tag());
        match self {
            Value::Bool(b) => {
                out.push(if *b { 1u8 } else { 0u8 });
            },
            Value::U8(x) => {
                out.push(*x);
            },
            Value::I8(x) => {
                out.push(*x as u8);
            },
            Value::U16(x) => {
                out.extend_from_slice(u16_to_le_bytes(*x).as_slice());
            },
            Value::I16(x) => {
                out.extend_from_slice(u16_to_le_bytes(*x as u16).as_slice());
            },
            Value::U32(x) => {
                out.extend_from_slice(u32_to_le_bytes(*x).as_slice());
            },
            Value::I32(x) => {
                out.extend_from_slice(u32_to_le_bytes(*x as u32).as_slice());
            },
            Value::U64(x) => {
                out.extend_from_slice(u64_to_le_bytes(*x).as_slice());
            },
            Value::I64(x) => {
                out.extend_from_slice(u64_to_le_bytes(*x as u64).as_slice());
            },
            Value::Date(d) => {
                out.extend_from_slice(u32_to_le_bytes(d.0 as u32).as_slice());
            },
            Value::Time(t) => {
                out.extend_from_slice(u64_to_le_bytes(t.0).as_slice());
            },
            Value::Timestamp(t) => {
                match t {
                    Timestamp::Int96 { julian_day, nanos_of_day } => {
                        out.push(0u8);
                        out.extend_from_slice(u32_to_le_bytes(*julian_day).as_slice());
                        out.extend_from_slice(u64_to_le_bytes(*nanos_of_day).as_slice());
                    },
                    Timestamp::Millis(millis) => {
                        out.push(1u8);
                        out.extend_from_slice(u64_to_le_bytes(*millis as u64).as_slice());
                    },
                    Timestamp::Micros(micros) => {
                        out.push(2u8);
                        out.extend_from_slice(u64_to_le_bytes(*micros as u64).as_slice());
                    },
                }
                assert(out@ =~= before + feed(self@));
            },
            Value::ByteArray(b) => {
                push_with_length(out, b.as_slice());
            },
            Value::Bson(b) => {
                push_with_length(out, b.0.as_slice());
            },
            Value::String(s) => {
                push_with_length(out, s.as_str().as_bytes());
            },
            Value::Json(s) => {
                push_with_length(out, s.0.as_str().as_bytes());
            },
            Value::Enum(s) => {
                push_with_length(out, s.0.as_str().as_bytes());
            },
            Value::List(list) => {
                out.extend_from_slice(u64_to_le_bytes(list.0.len() as u64).as_slice());
                let ghost start = out@;
                let ghost views = crate::record::types::value::value_views(list.0@);
                proof {
                    lemma_value_views(list.0@);
                    assert(views.take(0) =~= Seq::<ValueView>::empty());
                }
                let mut i: usize = 0;
                while i < list.0.len()
                    invariant
                        0 <= i <= list.0.len(),
                        self matches Value::List(l) && l == list,
                        views == crate::record::types::value::value_views(list.0@),
                        views.len() == list.0.len(),
                        forall|k: int| 0 <= k < views.len() ==> #[trigger] views[k] == list.0@[k]@,
                        out@ == start + feed_all(views.take(i as int)),
                    decreases list.0.len() - i,
                {
                    proof {
                        assert(views.take(i + 1).drop_last() =~= views.take(i as int));
                        assert(views.take(i + 1).last() == list.0@[i as int]@);
                    }
                    list.0[i].write_feed(out);
                    assert(out@ =~= start + feed_all(views.take(i + 1)));
                    i += 1;
                }
                assert(views.take(i as int) =~= views);
                assert(out@ =~= before + feed(self@));
            },
            Value::Option(None) => {
                out.push(0u8);
            },
            Value::Option(Some(inner)) => {
                out.push(1u8);
                inner.write_feed(out);
                assert(out@ =~= before + feed(self@));
            },
            _ => {},
        }
        assert(out@ =~= before + feed(self@));
    }

    /// Returns the bytes that the value feeds to a hasher.
    pub fn hash_feed(&self) -> (bytes: Vec<u8>)
        ensures
            bytes@ == feed(self@),
    {
        let mut bytes: Vec<u8> = Vec::new();
        self.write_feed(&mut bytes);
        assert(bytes@ =~= feed(self@));
        bytes
    }
}

impl std::hash::Hash for Value {
    /// Feeds the value to a hasher: the bytes of [`Value::hash_feed`], in one piece.
    fn hash<H: Hasher>(&self, state: &mut H) {
        let bytes = self.hash_feed();
        feed_hasher(state, bytes.as_slice());
    }
}

/// What a value feeds begins with the tag of its variant, and is the tag alone for
/// the variants that are not hashed by content.
pub proof fn lemma_feed_begins_with_tag(v: ValueView)
    ensures
        feed(v).len() >= 1,
        feed(v)[0] == tag(view_kind(v)),
        !hashed_by_content(view_kind(v)) ==> feed(v) == seq![tag(view_kind(v))],
{
    if !hashed_by_content(view_kind(v)) {
        assert(feed(v) =~= seq![tag(view_kind(v))]);
    }
}

/// Two variants have different tags.
pub proof fn lemma_tags_differ(a: ValueKind, b: ValueKind)
    requires
        a != b,
    ensures
        tag(a) != tag(b),
{
}

/// Values of different variants feed different bytes to a hasher, whether their
/// variants are hashed by content or not.
pub proof fn lemma_variants_feed_differently(a: ValueView, b: ValueView)
    requires
        view_kind(a) != view_kind(b),
    ensures
        feed(a) != feed(b),
{
    lemma_feed_begins_with_tag(a);
    lemma_feed_begins_with_tag(b);
    lemma_tags_differ(view_kind(a), view_kind(b));
}

/// Equal values feed the same bytes to a hasher: hashing agrees with equality.
pub proof fn lemma_equal_values_feed_equally(a: ValueView, b: ValueView)
    requires
        same_value(a, b),
    ensures
        feed(a) == feed(b),
    decreases a,
{
    match (a, b) {
        (ValueView::List(x), ValueView::List(y)) => {
            lemma_equal_lists_feed_equally(x, y);
        },
        (ValueView::Option(Some(x)), ValueView::Option(Some(y))) => {
            lemma_equal_values_feed_equally(*x, *y);
        },
        _ => {},
    }
}

/// Equal sequences of values feed the same bytes to a hasher.
pub proof fn lemma_equal_lists_feed_equally(a: Seq<ValueView>, b: Seq<ValueView>)
    requires
        same_values(a, b),
    ensures
        a.len() == b.len(),
        feed_all(a) == feed_all(b),
    decreases a,
{
    if a.len() > 0 {
        lemma_equal_lists_feed_equally(a.drop_last(), b.drop_last());
        lemma_equal_values_feed_equally(a.last(), b.last());
    }
}

} // verus!
