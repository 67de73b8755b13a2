use fxhash::FxHasher;
use record_core::record::types::list::List;
use record_core::record::types::map::Mapping;
use record_core::record::types::value::Value;
use record_core::record::types::{Bson, Date, Decimal, Enum, Float32, Float64, Json, Time, Timestamp};
use std::collections::hash_map::DefaultHasher;
use std::collections::HashMap;
use std::hash::{Hash, Hasher};

fn digest(value: &Value) -> u64 {
    let mut hasher = DefaultHasher::new();
    value.hash(&mut hasher);
    hasher.finish()
}

fn digest_of_bytes(bytes: &[u8]) -> u64 {
    let mut hasher = DefaultHasher::new();
    hasher.write(bytes);
    hasher.finish()
}

fn one_of_each() -> Vec<Value> {
    vec![
        Value::Bool(true),
        Value::U8(1),
        Value::I8(1),
        Value::U16(1),
        Value::I16(1),
        Value::U32(1),
        Value::I32(1),
        Value::U64(1),
        Value::I64(1),
        Value::F32(Float32 { bits: 1.0f32.to_bits() }),
        Value::F64(Float64 { bits: 1.0f64.to_bits() }),
        Value::Date(Date(1)),
        Value::Time(Time(1)),
        Value::Timestamp(Timestamp::Millis(1)),
        Value::Decimal(Decimal::Int32 { value: 1, precision: 1, scale: 0 }),
        Value::ByteArray(vec![1]),
        Value::Bson(Bson(vec![1])),
        Value::String("1".to_string()),
        Value::Json(Json("1".to_string())),
        Value::Enum(Enum("1".to_string())),
        Value::List(List(vec![Value::I32(1)])),
        Value::Mapping(Mapping(vec![(Value::I32(1), Value::I32(1))])),
        Value::Group(record_core::record::types::group::Group::from(
            linked_hash_map::LinkedHashMap::with_hasher(Default::default()),
        )),
        Value::Option(Some(Box::new(Value::I32(1)))),
    ]
}

#[test]
fn every_variant_has_its_own_tag() {
    let tags: Vec<u8> = one_of_each().iter().map(|v| v.kind_tag()).collect();
    assert_eq!(tags, (0u8..24).collect::<Vec<u8>>());
}

#[test]
fn feed_begins_with_the_tag() {
    for value in one_of_each() {
        assert_eq!(value.hash_feed()[0], value.kind_tag());
    }
}

#[test]
fn values_of_different_variants_feed_and_hash_differently() {
    let values = one_of_each();
    for (i, a) in values.iter().enumerate() {
        for (j, b) in values.iter().enumerate() {
            if i != j {
                assert_ne!(a.hash_feed(), b.hash_feed());
                assert_ne!(digest(a), digest(b));
            }
        }
    }
}

#[test]
fn floats_decimals_maps_and_groups_feed_their_tag_alone() {
    assert_eq!(Value::F32(Float32 { bits: 7 }).hash_feed(), vec![9]);
    assert_eq!(Value::F64(Float64 { bits: 7 }).hash_feed(), vec![10]);
    assert_eq!(Value::Decimal(Decimal::Int64 { value: 1, precision: 1, scale: 0 }).hash_feed(), vec![14]);
    assert_eq!(Value::Mapping(Mapping(vec![(Value::I32(1), Value::I32(2))])).hash_feed(), vec![21]);
    assert_eq!(one_of_each()[22].hash_feed(), vec![22]);
    assert_eq!(
        digest(&Value::F32(Float32 { bits: 1.0f32.to_bits() })),
        digest(&Value::F32(Float32 { bits: 2.0f32.to_bits() }))
    );
}

#[test]
fn feed_of_content() {
    assert_eq!(Value::Bool(true).hash_feed(), vec![0, 1]);
    assert_eq!(Value::Bool(false).hash_feed(), vec![0, 0]);
    assert_eq!(Value::U8(200).hash_feed(), vec![1, 200]);
    assert_eq!(Value::I8(-1).hash_feed(), vec![2, 255]);
    assert_eq!(Value::U16(0x0102).hash_feed(), vec![3, 2, 1]);
    assert_eq!(Value::I16(-2).hash_feed(), vec![4, 0xfe, 0xff]);
    assert_eq!(Value::U32(1).hash_feed(), vec![5, 1, 0, 0, 0]);
    assert_eq!(Value::I32(-1).hash_feed(), vec![6, 255, 255, 255, 255]);
    assert_eq!(Value::U64(0x0102).hash_feed(), vec![7, 2, 1, 0, 0, 0, 0, 0, 0]);
    assert_eq!(Value::I64(-1).hash_feed(), vec![8, 255, 255, 255, 255, 255, 255, 255, 255]);
    assert_eq!(Value::Date(Date(3)).hash_feed(), vec![11, 3, 0, 0, 0]);
    assert_eq!(Value::Time(Time(4)).hash_feed(), vec![12, 4, 0, 0, 0, 0, 0, 0, 0]);
    assert_eq!(
        Value::Timestamp(Timestamp::Int96 { julian_day: 1, nanos_of_day: 2 }).hash_feed(),
        vec![13, 0, 1, 0, 0, 0, 2, 0, 0, 0, 0, 0, 0, 0]
    );
    assert_eq!(Value::Timestamp(Timestamp::Millis(5)).hash_feed(), vec![13, 1, 5, 0, 0, 0, 0, 0, 0, 0]);
    assert_eq!(Value::Timestamp(Timestamp::Micros(5)).hash_feed(), vec![13, 2, 5, 0, 0, 0, 0, 0, 0, 0]);
    assert_eq!(Value::ByteArray(vec![9, 8]).hash_feed(), vec![15, 2, 0, 0, 0, 0, 0, 0, 0, 9, 8]);
    assert_eq!(Value::Bson(Bson(vec![])).hash_feed(), vec![16, 0, 0, 0, 0, 0, 0, 0, 0]);
    assert_eq!(Value::String("ab".to_string()).hash_feed(), vec![17, 2, 0, 0, 0, 0, 0, 0, 0, 97, 98]);
    assert_eq!(
        Value::Json(Json("\u{e9}".to_string())).hash_feed(),
        vec![18, 2, 0, 0, 0, 0, 0, 0, 0, 0xc3, 0xa9]
    );
    assert_eq!(Value::Enum(Enum("A".to_string())).hash_feed(), vec![19, 1, 0, 0, 0, 0, 0, 0, 0, 65]);
    assert_eq!(
        Value::List(List(vec![Value::U8(1), Value::Bool(true)])).hash_feed(),
        vec![20, 2, 0, 0, 0, 0, 0, 0, 0, 1, 1, 0, 1]
    );
    assert_eq!(Value::Option(None).hash_feed(), vec![23, 0]);
    assert_eq!(Value::Option(Some(Box::new(Value::U8(5)))).hash_feed(), vec![23, 1, 1, 5]);
}

#[test]
fn write_feed_appends() {
    let mut out = vec![42u8];
    Value::U8(1).write_feed(&mut out);
    Value::Bool(true).write_feed(&mut out);
    assert_eq!(out, vec![42, 1, 1, 0, 1]);
}

#[test]
fn hash_hands_the_feed_to_the_hasher() {
    for value in one_of_each() {
        assert_eq!(digest(&value), digest_of_bytes(&value.hash_feed()));
    }
    assert_ne!(digest(&Value::I32(1)), digest(&Value::I32(2)));
    let mut fx = FxHasher::default();
    Value::I32(1).hash(&mut fx);
    let mut expected = FxHasher::default();
    expected.write(&[6, 1, 0, 0, 0]);
    assert_eq!(fx.finish(), expected.finish());
}

#[test]
fn equal_values_hash_equally() {
    let a = Value::List(List(vec![Value::F32(Float32 { bits: 0.0f32.to_bits() }), Value::I32(1)]));
    let b = Value::List(List(vec![Value::F32(Float32 { bits: (-0.0f32).to_bits() }), Value::I32(1)]));
    assert_eq!(a, b);
    assert_eq!(a.hash_feed(), b.hash_feed());
    assert_eq!(digest(&a), digest(&b));
}

#[test]
fn values_are_keys_of_hash_maps() {
    let mut map: HashMap<Value, i32> = HashMap::new();
    map.insert(Value::String("a".to_string()), 1);
    map.insert(Value::I32(1), 2);
    map.insert(Value::String("a".to_string()), 3);
    assert_eq!(map.len(), 2);
    assert_eq!(map.get(&Value::String("a".to_string())), Some(&3));
    assert_eq!(map.get(&Value::I32(1)), Some(&2));
    assert_eq!(map.get(&Value::I64(1)), None);
}
