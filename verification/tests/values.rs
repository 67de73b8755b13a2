use record_core::errors::{ParquetError, ValueKind};
use record_core::record::types::convert::Downcast;
use record_core::record::types::list::List;
use record_core::record::types::map::Mapping;
use record_core::record::types::value::Value;
use record_core::record::types::{Bson, Date, Decimal, Enum, Float32, Float64, Json, Time, Timestamp};

fn f32_value(x: f32) -> Float32 {
    Float32 { bits: x.to_bits() }
}

fn f64_value(x: f64) -> Float64 {
    Float64 { bits: x.to_bits() }
}

fn one_of_each() -> Vec<(Value, ValueKind)> {
    vec![
        (Value::Bool(true), ValueKind::Bool),
        (Value::U8(1), ValueKind::U8),
        (Value::I8(-1), ValueKind::I8),
        (Value::U16(2), ValueKind::U16),
        (Value::I16(-2), ValueKind::I16),
        (Value::U32(3), ValueKind::U32),
        (Value::I32(-3), ValueKind::I32),
        (Value::U64(4), ValueKind::U64),
        (Value::I64(-4), ValueKind::I64),
        (Value::F32(f32_value(1.5)), ValueKind::F32),
        (Value::F64(f64_value(2.5)), ValueKind::F64),
        (Value::Date(Date(18000)), ValueKind::Date),
        (Value::Time(Time(1_000_000)), ValueKind::Time),
        (Value::Timestamp(Timestamp::Millis(5)), ValueKind::Timestamp),
        (Value::Decimal(Decimal::Int32 { value: 5, precision: 9, scale: 2 }), ValueKind::Decimal),
        (Value::ByteArray(vec![1, 2]), ValueKind::ByteArray),
        (Value::Bson(Bson(vec![3])), ValueKind::Bson),
        (Value::String("s".to_string()), ValueKind::String),
        (Value::Json(Json("{}".to_string())), ValueKind::Json),
        (Value::Enum(Enum("E".to_string())), ValueKind::Enum),
        (Value::List(List(vec![Value::I32(1)])), ValueKind::List),
        (Value::Mapping(Mapping(vec![(Value::I32(1), Value::I32(2))])), ValueKind::Mapping),
        (Value::Option(Some(Box::new(Value::I32(1)))), ValueKind::Option),
    ]
}

#[test]
fn each_value_is_of_its_own_variant_only() {
    for (value, kind) in one_of_each() {
        assert_eq!(value.kind(), kind);
        assert_eq!(value.is_bool(), kind == ValueKind::Bool);
        assert_eq!(value.is_u8(), kind == ValueKind::U8);
        assert_eq!(value.is_i8(), kind == ValueKind::I8);
        assert_eq!(value.is_u16(), kind == ValueKind::U16);
        assert_eq!(value.is_i16(), kind == ValueKind::I16);
        assert_eq!(value.is_u32(), kind == ValueKind::U32);
        assert_eq!(value.is_i32(), kind == ValueKind::I32);
        assert_eq!(value.is_u64(), kind == ValueKind::U64);
        assert_eq!(value.is_i64(), kind == ValueKind::I64);
        assert_eq!(value.is_f32(), kind == ValueKind::F32);
        assert_eq!(value.is_f64(), kind == ValueKind::F64);
        assert_eq!(value.is_date(), kind == ValueKind::Date);
        assert_eq!(value.is_time(), kind == ValueKind::Time);
        assert_eq!(value.is_timestamp(), kind == ValueKind::Timestamp);
        assert_eq!(value.is_decimal(), kind == ValueKind::Decimal);
        assert_eq!(value.is_byte_array(), kind == ValueKind::ByteArray);
        assert_eq!(value.is_bson(), kind == ValueKind::Bson);
        assert_eq!(value.is_string(), kind == ValueKind::String);
        assert_eq!(value.is_json(), kind == ValueKind::Json);
        assert_eq!(value.is_enum(), kind == ValueKind::Enum);
        assert_eq!(value.is_list(), kind == ValueKind::List);
        assert_eq!(value.is_map(), kind == ValueKind::Mapping);
        assert_eq!(value.is_group(), kind == ValueKind::Group);
        assert_eq!(value.is_option(), kind == ValueKind::Option);
    }
}

fn is_mismatch<T: std::fmt::Debug>(r: Result<T, ParquetError>, expected: ValueKind, actual: ValueKind) -> bool {
    matches!(r, Err(ParquetError::TypeMismatch { expected: e, actual_summary: a }) if e == expected && a == actual)
}

#[test]
fn accessors_give_the_payload() {
    assert_eq!(Value::Bool(true).as_bool().unwrap(), true);
    assert_eq!(Value::U8(7).as_u8().unwrap(), 7);
    assert_eq!(Value::I8(-7).as_i8().unwrap(), -7);
    assert_eq!(Value::U16(7).as_u16().unwrap(), 7);
    assert_eq!(Value::I16(-7).as_i16().unwrap(), -7);
    assert_eq!(Value::U32(7).as_u32().unwrap(), 7);
    assert_eq!(Value::I32(-7).as_i32().unwrap(), -7);
    assert_eq!(Value::U64(7).as_u64().unwrap(), 7);
    assert_eq!(Value::I64(-7).as_i64().unwrap(), -7);
    assert_eq!(Value::F32(f32_value(1.5)).as_f32().unwrap().bits, 1.5f32.to_bits());
    assert_eq!(Value::F64(f64_value(2.5)).as_f64().unwrap().bits, 2.5f64.to_bits());
    assert_eq!(*Value::Date(Date(3)).as_date().unwrap(), Date(3));
    assert_eq!(*Value::Time(Time(4)).as_time().unwrap(), Time(4));
    assert_eq!(*Value::Timestamp(Timestamp::Micros(9)).as_timestamp().unwrap(), Timestamp::Micros(9));
    assert_eq!(Value::ByteArray(vec![1, 2]).as_byte_array().unwrap(), &vec![1u8, 2]);
    assert_eq!(Value::Bson(Bson(vec![1])).as_bson().unwrap().0, vec![1u8]);
    assert_eq!(Value::String("s".to_string()).as_string().unwrap(), "s");
    assert_eq!(Value::Json(Json("j".to_string())).as_json().unwrap().0, "j");
    assert_eq!(Value::Enum(Enum("e".to_string())).as_enum().unwrap().0, "e");
    assert_eq!(Value::List(List(vec![Value::I32(1)])).as_list().unwrap().len(), 1);
    assert_eq!(Value::Mapping(Mapping(vec![])).as_map().unwrap().len(), 0);
    assert_eq!(Value::Bool(false).into_bool().unwrap(), false);
    assert_eq!(Value::I32(-7).into_i32().unwrap(), -7);
    assert_eq!(Value::String("s".to_string()).into_string().unwrap(), "s");
    assert_eq!(Value::ByteArray(vec![9]).into_byte_array().unwrap(), vec![9u8]);
    assert_eq!(Value::List(List(vec![Value::I32(1)])).into_list().unwrap().into_vec(), vec![Value::I32(1)]);
    match Value::Decimal(Decimal::Int64 { value: 5, precision: 18, scale: 3 }).into_decimal().unwrap() {
        Decimal::Int64 { value, precision, scale } => assert_eq!((value, precision, scale), (5, 18, 3)),
        other => panic!("expected a decimal of 64 bits, found {:?}", other),
    }
}

#[test]
fn accessor_of_another_variant_names_both_variants() {
    assert!(is_mismatch(Value::I32(1).as_bool(), ValueKind::Bool, ValueKind::I32));
    assert!(is_mismatch(Value::Bool(true).as_i32(), ValueKind::I32, ValueKind::Bool));
    assert!(is_mismatch(Value::Bool(true).into_string(), ValueKind::String, ValueKind::Bool));
    assert!(is_mismatch(Value::String("s".to_string()).as_list(), ValueKind::List, ValueKind::String));
    assert!(is_mismatch(Value::U8(1).as_map(), ValueKind::Mapping, ValueKind::U8));
    assert!(is_mismatch(Value::U8(1).as_group(), ValueKind::Group, ValueKind::U8));
    assert!(is_mismatch(Value::U8(1).into_option(), ValueKind::Option, ValueKind::U8));
    assert!(is_mismatch(Value::U8(1).as_f32(), ValueKind::F32, ValueKind::U8));
    assert!(is_mismatch(Value::Option(None).into_date(), ValueKind::Date, ValueKind::Option));
    for (value, kind) in one_of_each() {
        if kind != ValueKind::U64 {
            assert!(is_mismatch(value.as_u64(), ValueKind::U64, kind));
        }
    }
}

#[test]
fn option_accessors_unwrap_one_level() {
    assert_eq!(Value::Option(Some(Box::new(Value::I32(1)))).into_option().unwrap(), Some(Value::I32(1)));
    assert_eq!(Value::Option(None).into_option().unwrap(), None);
    assert!(Value::Option(None).as_option().unwrap().is_none());
    assert_eq!(Value::from_option(Some(Value::I32(1))), Value::Option(Some(Box::new(Value::I32(1)))));
    assert_eq!(Value::from_option(None), Value::Option(None));
}

#[test]
fn primitive_round_trips_are_the_identity() {
    let r: bool = Value::from(true).downcast().unwrap();
    assert_eq!(r, true);
    let r: u8 = Value::from(200u8).downcast().unwrap();
    assert_eq!(r, 200);
    let r: i8 = Value::from(-100i8).downcast().unwrap();
    assert_eq!(r, -100);
    let r: u16 = Value::from(60000u16).downcast().unwrap();
    assert_eq!(r, 60000);
    let r: i16 = Value::from(-30000i16).downcast().unwrap();
    assert_eq!(r, -30000);
    let r: u32 = Value::from(4_000_000_000u32).downcast().unwrap();
    assert_eq!(r, 4_000_000_000);
    let r: i32 = Value::from(i32::MIN).downcast().unwrap();
    assert_eq!(r, i32::MIN);
    let r: u64 = Value::from(u64::MAX).downcast().unwrap();
    assert_eq!(r, u64::MAX);
    let r: i64 = Value::from(i64::MIN).downcast().unwrap();
    assert_eq!(r, i64::MIN);
    let r: Float32 = Value::from(f32_value(-0.0)).downcast().unwrap();
    assert_eq!(r.bits, (-0.0f32).to_bits());
    let r: Float64 = Value::from(f64_value(f64::NAN)).downcast().unwrap();
    assert_eq!(r.bits, f64::NAN.to_bits());
    let r: Date = Value::from(Date(-1)).downcast().unwrap();
    assert_eq!(r, Date(-1));
    let r: Time = Value::from(Time(86_399_999_999)).downcast().unwrap();
    assert_eq!(r, Time(86_399_999_999));
    let r: Timestamp =
        Value::from(Timestamp::Int96 { julian_day: 2_440_588, nanos_of_day: 1 }).downcast().unwrap();
    assert_eq!(r, Timestamp::Int96 { julian_day: 2_440_588, nanos_of_day: 1 });
    let r: Vec<u8> = Value::from(vec![0u8, 255]).downcast().unwrap();
    assert_eq!(r, vec![0u8, 255]);
    let r: String = Value::from("text".to_string()).downcast().unwrap();
    assert_eq!(r, "text");
    let r: Bson = Value::from(Bson(vec![1])).downcast().unwrap();
    assert_eq!(r.0, vec![1u8]);
    let r: Json = Value::from(Json("[]".to_string())).downcast().unwrap();
    assert_eq!(r.0, "[]");
    let r: Enum = Value::from(Enum("A".to_string())).downcast().unwrap();
    assert_eq!(r.0, "A");
    let r: Value = Value::I32(1).downcast().unwrap();
    assert_eq!(r, Value::I32(1));
    let r: Result<bool, ParquetError> = Value::from(1u8).downcast();
    assert!(is_mismatch(r, ValueKind::Bool, ValueKind::U8));
}

#[test]
fn list_round_trip_is_the_identity() {
    let value = Value::from_list(List(vec![1i32, 2, 3]));
    assert_eq!(value, Value::List(List(vec![Value::I32(1), Value::I32(2), Value::I32(3)])));
    let back: List<i32> = value.downcast_list().unwrap();
    assert_eq!(back.into_vec(), vec![1, 2, 3]);
    let empty: List<String> = Value::from_list(List(Vec::<String>::new())).downcast_list().unwrap();
    assert_eq!(empty.len(), 0);
}

#[test]
fn list_downcast_fails_with_the_first_failing_element() {
    let value = Value::List(List(vec![Value::I32(1), Value::Bool(true), Value::String("s".to_string())]));
    let r: Result<List<i32>, ParquetError> = value.downcast_list();
    assert!(is_mismatch(r, ValueKind::I32, ValueKind::Bool));
    let r: Result<List<i32>, ParquetError> = Value::I32(1).downcast_list();
    assert!(is_mismatch(r, ValueKind::List, ValueKind::I32));
}

#[test]
fn map_round_trip_is_the_identity() {
    let map = Mapping(vec![("a".to_string(), 1i64), ("b".to_string(), 2i64)]);
    let value = Value::from_map(map);
    assert_eq!(
        value,
        Value::Mapping(Mapping(vec![
            (Value::String("a".to_string()), Value::I64(1)),
            (Value::String("b".to_string()), Value::I64(2)),
        ]))
    );
    let back: Mapping<String, i64> = value.downcast_map().unwrap();
    assert_eq!(back.into_entries(), vec![("a".to_string(), 1i64), ("b".to_string(), 2i64)]);
}

#[test]
fn map_of_payloads_keeps_the_later_of_equal_keys() {
    let value = Value::from_map(Mapping(vec![(1u8, 10u8), (2u8, 20u8), (1u8, 30u8)]));
    let map = value.into_map().unwrap();
    assert_eq!(map.len(), 2);
    assert_eq!(map.get(&Value::U8(1)), Some(&Value::U8(30)));
    assert_eq!(map.get(&Value::U8(2)), Some(&Value::U8(20)));
    assert_eq!(map.get(&Value::U8(3)), None);
}

#[test]
fn map_downcast_fails_with_the_first_failure() {
    let value = Value::Mapping(Mapping(vec![
        (Value::I32(1), Value::Bool(true)),
        (Value::I32(2), Value::I32(3)),
        (Value::Bool(false), Value::Bool(true)),
    ]));
    let r: Result<Mapping<i32, bool>, ParquetError> = value.downcast_map();
    assert!(is_mismatch(r, ValueKind::Bool, ValueKind::I32));
    let r: Result<Mapping<i32, bool>, ParquetError> = Value::I32(1).downcast_map();
    assert!(is_mismatch(r, ValueKind::Mapping, ValueKind::I32));
}

#[test]
fn optional_payload_round_trip_is_the_identity() {
    let value = Value::from_some(Some(5u16));
    assert_eq!(value, Value::Option(Some(Box::new(Value::U16(5)))));
    let back: Option<u16> = value.downcast_some().unwrap();
    assert_eq!(back, Some(5));
    let back: Option<u16> = Value::from_some(None::<u16>).downcast_some().unwrap();
    assert_eq!(back, None);
    let r: Result<Option<u16>, ParquetError> = Value::Option(Some(Box::new(Value::Bool(true)))).downcast_some();
    assert!(is_mismatch(r, ValueKind::U16, ValueKind::Bool));
    let r: Result<Option<Value>, ParquetError> = Value::Option(None).downcast();
    assert_eq!(r.unwrap(), None);
}

#[test]
fn floats_compare_as_the_numbers_do() {
    let samples = [
        0.0f32,
        -0.0,
        1.0,
        -1.0,
        f32::NAN,
        -f32::NAN,
        f32::INFINITY,
        f32::NEG_INFINITY,
        f32::MIN_POSITIVE,
        f32::MAX,
        1.0e-40,
    ];
    for a in samples {
        for b in samples {
            assert_eq!(f32_value(a).same(&f32_value(b)), a == b, "{} {}", a, b);
            assert_eq!(Value::F32(f32_value(a)) == Value::F32(f32_value(b)), a == b);
        }
        assert_eq!(f32_value(a).is_nan(), a.is_nan());
    }
    let samples = [0.0f64, -0.0, 1.0, -1.0, f64::NAN, f64::INFINITY, f64::NEG_INFINITY, f64::MAX, 5.0e-324];
    for a in samples {
        for b in samples {
            assert_eq!(f64_value(a).same(&f64_value(b)), a == b, "{} {}", a, b);
            assert_eq!(Value::F64(f64_value(a)) == Value::F64(f64_value(b)), a == b);
        }
        assert_eq!(f64_value(a).is_nan(), a.is_nan());
    }
}

#[test]
fn values_of_different_variants_are_not_equal() {
    let values = one_of_each();
    for (i, (a, _)) in values.iter().enumerate() {
        for (j, (b, _)) in values.iter().enumerate() {
            assert_eq!(a == b, i == j, "{:?} {:?}", a, b);
        }
    }
    assert_ne!(Value::I32(1), Value::I64(1));
    assert_ne!(Value::String("a".to_string()), Value::Json(Json("a".to_string())));
}

#[test]
fn maps_are_equal_whatever_the_order_of_their_entries() {
    let a = Value::Mapping(Mapping(vec![(Value::I32(1), Value::Bool(true)), (Value::I32(2), Value::Bool(false))]));
    let b = Value::Mapping(Mapping(vec![(Value::I32(2), Value::Bool(false)), (Value::I32(1), Value::Bool(true))]));
    let c = Value::Mapping(Mapping(vec![(Value::I32(2), Value::Bool(true)), (Value::I32(1), Value::Bool(true))]));
    let d = Value::Mapping(Mapping(vec![(Value::I32(1), Value::Bool(true))]));
    assert_eq!(a, b);
    assert_ne!(a, c);
    assert_ne!(a, d);
    assert_ne!(d, a);
}

#[test]
fn lists_are_equal_element_by_element() {
    let a = Value::List(List(vec![Value::I32(1), Value::I32(2)]));
    assert_eq!(a, Value::List(List(vec![Value::I32(1), Value::I32(2)])));
    assert_ne!(a, Value::List(List(vec![Value::I32(2), Value::I32(1)])));
    assert_ne!(a, Value::List(List(vec![Value::I32(1)])));
    assert_eq!(List(vec![1, 2]), List(vec![1, 2]));
    assert_ne!(List(vec![1, 2]), List(vec![1, 3]));
}

#[test]
fn a_value_equals_a_payload_of_its_variant_only() {
    assert!(Value::Bool(true) == true);
    assert!(Value::Bool(true) != false);
    assert!(Value::I32(5) != true);
    assert!(Value::I32(5) == 5i32);
    assert!(Value::I32(5) != 5i64);
    assert!(Value::U8(5) == 5u8);
    assert!(Value::I8(-5) == -5i8);
    assert!(Value::U16(5) == 5u16);
    assert!(Value::I16(5) == 5i16);
    assert!(Value::U32(5) == 5u32);
    assert!(Value::U64(5) == 5u64);
    assert!(Value::I64(5) == 5i64);
    assert!(Value::F32(f32_value(0.0)) == f32_value(-0.0));
    assert!(Value::F64(f64_value(f64::NAN)) != f64_value(f64::NAN));
    assert!(Value::Date(Date(1)) == Date(1));
    assert!(Value::Time(Time(1)) != Time(2));
    assert!(Value::Timestamp(Timestamp::Millis(1)) != Timestamp::Micros(1));
    assert!(
        Value::Decimal(Decimal::Bytes { value: vec![1], precision: 3, scale: 1 })
            == Decimal::Bytes { value: vec![1], precision: 3, scale: 1 }
    );
    assert!(
        Value::Decimal(Decimal::Bytes { value: vec![1], precision: 3, scale: 1 })
            != Decimal::Bytes { value: vec![1], precision: 3, scale: 2 }
    );
    assert!(Value::ByteArray(vec![1, 2]) == vec![1u8, 2]);
    assert!(Value::ByteArray(vec![1, 2]) != vec![1u8]);
    assert!(Value::Bson(Bson(vec![1])) == Bson(vec![1]));
    assert!(Value::String("a".to_string()) == "a".to_string());
    assert!(Value::String("a".to_string()) != "b".to_string());
    assert!(Value::Json(Json("a".to_string())) == Json("a".to_string()));
    assert!(Value::Enum(Enum("a".to_string())) != Enum("b".to_string()));
    assert!(Value::List(List(vec![Value::I32(1)])) == List(vec![1i32]));
    assert!(Value::List(List(vec![Value::I32(1)])) != List(vec![2i32]));
    assert!(Value::List(List(vec![Value::I32(1)])) != List(vec![true]));
    assert!(Value::List(List(vec![Value::I32(1)])) == List(vec![Value::I32(1)]));
    assert!(Value::I32(1) != List(vec![1i32]));
    assert!(Value::Option(Some(Box::new(Value::I32(1)))) == Some(1i32));
    assert!(Value::Option(Some(Box::new(Value::I32(1)))) != Some(2i32));
    assert!(Value::Option(Some(Box::new(Value::I32(1)))) != None::<i32>);
    assert!(Value::Option(None) == None::<i32>);
    assert!(Value::I32(1) != Some(1i32));
    assert!(
        Value::Mapping(Mapping(vec![(Value::I32(1), Value::I32(2))]))
            == Mapping(vec![(Value::I32(1), Value::I32(2))])
    );
}

#[test]
fn map_insert_replaces_in_place_and_returns_the_old_value() {
    let mut map: Mapping<Value, Value> = Mapping::new();
    assert_eq!(map.insert(Value::String("a".to_string()), Value::I32(1)), None);
    assert_eq!(map.insert(Value::String("b".to_string()), Value::I32(2)), None);
    assert_eq!(map.insert(Value::String("a".to_string()), Value::I32(3)), Some(Value::I32(1)));
    assert_eq!(
        map.into_entries(),
        vec![
            (Value::String("a".to_string()), Value::I32(3)),
            (Value::String("b".to_string()), Value::I32(2)),
        ]
    );
}

#[test]
fn clone_gives_an_equal_value() {
    for (value, _) in one_of_each() {
        let copy = value.clone();
        assert_eq!(copy.kind(), value.kind());
        if !value.is_f32() && !value.is_f64() {
            assert_eq!(copy, value);
        }
        assert!(copy.is_wf());
    }
}

#[test]
fn an_option_in_an_option_is_not_well_formed() {
    let nested = Value::Option(Some(Box::new(Value::Option(None))));
    assert!(!nested.is_wf());
    assert!(!Value::List(List(vec![nested])).is_wf());
    assert!(Value::Option(Some(Box::new(Value::I32(1)))).is_wf());
}

#[test]
fn list_gives_its_elements_in_order() {
    let list = List::from(vec![3, 1, 2]);
    assert_eq!(list.iter().copied().collect::<Vec<i32>>(), vec![3, 1, 2]);
    assert_eq!(list[1], 1);
    assert_eq!(list.get(2), Some(&2));
    assert_eq!(list.get(3), None);
    assert_eq!(list.len(), 3);
    assert_eq!(list.into_iter().collect::<Vec<i32>>(), vec![3, 1, 2]);
}

#[test]
fn failures_say_what_went_wrong() {
    assert_eq!(
        Value::I32(1).as_bool().unwrap_err().message(),
        "Cannot access i32 as bool"
    );
    assert_eq!(
        Value::Mapping(Mapping(vec![])).into_byte_array().unwrap_err().message(),
        "Cannot access map as byte_array"
    );
    assert_eq!(
        ParquetError::ClassificationFailed { context: "x".to_string() }.message(),
        "Can't parse value x"
    );
    assert_eq!(
        ParquetError::UnsupportedAnnotation { name: record_core::basic::LogicalType::Interval }.message(),
        "INTERVAL logical type not yet implemented"
    );
    assert_eq!(ParquetError::MalformedListWrapper.message(), "Couldn't parse List<T>");
    assert_eq!(ParquetError::MalformedMapWrapper.message(), "Couldn't parse Map<K,V>");
    assert_eq!(ParquetError::DecoderError { inner: "broken".to_string() }.message(), "broken");
    assert_eq!(ValueKind::Timestamp.as_str(), "timestamp");
}
