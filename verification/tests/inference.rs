use record_core::basic::{LogicalType, LogicalType as L, PhysicalType, PhysicalType as P, Repetition};
use record_core::errors::ParquetError;
use record_core::record::schemas::{
    ByteArraySchema, DecimalSchema, ListSchemaType, TimeSchema, TimestampSchema, ValueSchema,
};
use record_core::record::types::boxed;
use record_core::record::types::group::Group;
use record_core::record::types::list::{parse_list, List};
use record_core::record::types::map::parse_map;
use record_core::record::types::value::{parse_primitive, Value};
use record_core::schema::{BasicTypeInfo, Type};

fn primitive(name: &str, repetition: Repetition, physical: PhysicalType, logical: LogicalType) -> Type {
    Type::PrimitiveType {
        basic_info: BasicTypeInfo {
            name: name.to_string(),
            repetition: Some(repetition),
            logical_type: logical,
        },
        physical_type: physical,
        type_length: -1,
        scale: -1,
        precision: -1,
    }
}

fn group(name: &str, repetition: Option<Repetition>, logical: LogicalType, fields: Vec<Type>) -> Type {
    Type::GroupType {
        basic_info: BasicTypeInfo { name: name.to_string(), repetition, logical_type: logical },
        fields,
    }
}

fn int32(name: &str, repetition: Repetition) -> Type {
    primitive(name, repetition, PhysicalType::Int32, LogicalType::Unannotated)
}

fn schema_of(physical: PhysicalType, logical: LogicalType) -> ValueSchema {
    parse_primitive(physical, logical, 12, 9, 2).unwrap()
}

#[test]
fn optional_int32_is_option_of_i32() {
    let ty = int32("x", Repetition::Optional);
    assert!(ty.is_valid());
    let (name, schema) = Value::parse(&ty, Some(Repetition::Optional)).unwrap();
    assert_eq!(name, "x");
    match schema {
        ValueSchema::Option(inner) => assert!(matches!(inner.0, ValueSchema::I32(_))),
        _ => panic!("expected an option"),
    }
}

#[test]
fn required_and_root_pass_through_unwrapped() {
    let ty = int32("x", Repetition::Required);
    let (_, schema) = Value::parse(&ty, Some(Repetition::Required)).unwrap();
    assert!(matches!(schema, ValueSchema::I32(_)));
    let root = group("root", None, LogicalType::Unannotated, vec![int32("a", Repetition::Required)]);
    let (name, schema) = Value::parse(&root, None).unwrap();
    assert_eq!(name, "root");
    assert!(matches!(schema, ValueSchema::Group(_)));
}

#[test]
fn repeated_field_is_a_list_without_wrapper() {
    let ty = int32("xs", Repetition::Repeated);
    let (_, schema) = Value::parse(&ty, Some(Repetition::Repeated)).unwrap();
    match schema {
        ValueSchema::List(list) => {
            assert!(matches!(list.0, ValueSchema::I32(_)));
            assert!(matches!(list.1, ListSchemaType::Repeated));
        }
        _ => panic!("expected a list"),
    }
}

#[test]
fn primitive_without_repetition_has_no_shape() {
    let ty = Type::PrimitiveType {
        basic_info: BasicTypeInfo {
            name: "x".to_string(),
            repetition: None,
            logical_type: LogicalType::Unannotated,
        },
        physical_type: PhysicalType::Int32,
        type_length: -1,
        scale: -1,
        precision: -1,
    };
    match Value::parse(&ty, None) {
        Err(ParquetError::ClassificationFailed { context }) => assert_eq!(context, "x"),
        other => panic!("expected a failed classification, found {:?}", other),
    }
}

#[test]
fn group_without_fields_has_no_shape() {
    let ty = group("empty", Some(Repetition::Required), LogicalType::Unannotated, vec![]);
    assert!(ty.is_valid());
    match Value::parse(&ty, Some(Repetition::Required)) {
        Err(ParquetError::ClassificationFailed { context }) => assert_eq!(context, "empty"),
        other => panic!("expected a failed classification, found {:?}", other),
    }
}

#[test]
fn interval_on_bytes_is_unsupported() {
    let ty = primitive("i", Repetition::Required, PhysicalType::FixedLenByteArray, LogicalType::Interval);
    let ty = match ty {
        Type::PrimitiveType { basic_info, physical_type, scale, precision, .. } => {
            Type::PrimitiveType { basic_info, physical_type, type_length: 12, scale, precision }
        }
        other => other,
    };
    assert!(ty.is_valid());
    match Value::parse(&ty, Some(Repetition::Required)) {
        Err(ParquetError::UnsupportedAnnotation { name }) => assert_eq!(name, LogicalType::Interval),
        other => panic!("expected an unsupported annotation, found {:?}", other),
    }
    let inside = group("g", Some(Repetition::Required), LogicalType::Unannotated, vec![ty]);
    assert!(matches!(
        Value::parse(&inside, Some(Repetition::Required)),
        Err(ParquetError::UnsupportedAnnotation { name: LogicalType::Interval })
    ));
}

#[test]
fn interval_on_an_integer_falls_back_to_the_integer() {
    assert!(matches!(schema_of(PhysicalType::Int32, LogicalType::Interval), ValueSchema::I32(_)));
}

#[test]
fn primitive_table_rows() {
    assert!(matches!(schema_of(P::Boolean, L::Unannotated), ValueSchema::Bool(_)));
    assert!(matches!(schema_of(P::Int32, L::Uint8), ValueSchema::U8(_)));
    assert!(matches!(schema_of(P::Int32, L::Int8), ValueSchema::I8(_)));
    assert!(matches!(schema_of(P::Int32, L::Uint16), ValueSchema::U16(_)));
    assert!(matches!(schema_of(P::Int32, L::Int16), ValueSchema::I16(_)));
    assert!(matches!(schema_of(P::Int32, L::Uint32), ValueSchema::U32(_)));
    assert!(matches!(schema_of(P::Int32, L::Int32), ValueSchema::I32(_)));
    assert!(matches!(schema_of(P::Int32, L::Unannotated), ValueSchema::I32(_)));
    assert!(matches!(schema_of(P::Int32, L::Date), ValueSchema::Date(_)));
    assert!(matches!(schema_of(P::Int32, L::TimeMillis), ValueSchema::Time(TimeSchema::Millis)));
    assert!(matches!(
        schema_of(P::Int32, L::Decimal),
        ValueSchema::Decimal(DecimalSchema::Int32 { precision: 9, scale: 2 })
    ));
    assert!(matches!(schema_of(P::Int64, L::Uint64), ValueSchema::U64(_)));
    assert!(matches!(schema_of(P::Int64, L::Int64), ValueSchema::I64(_)));
    assert!(matches!(schema_of(P::Int64, L::Unannotated), ValueSchema::I64(_)));
    assert!(matches!(schema_of(P::Int64, L::TimeMicros), ValueSchema::Time(TimeSchema::Micros)));
    assert!(matches!(
        schema_of(P::Int64, L::TimestampMillis),
        ValueSchema::Timestamp(TimestampSchema::Millis)
    ));
    assert!(matches!(
        schema_of(P::Int64, L::TimestampMicros),
        ValueSchema::Timestamp(TimestampSchema::Micros)
    ));
    assert!(matches!(
        schema_of(P::Int64, L::Decimal),
        ValueSchema::Decimal(DecimalSchema::Int64 { precision: 9, scale: 2 })
    ));
    assert!(matches!(schema_of(P::Int96, L::Unannotated), ValueSchema::Timestamp(TimestampSchema::Int96)));
    assert!(matches!(schema_of(P::Float, L::Unannotated), ValueSchema::F32(_)));
    assert!(matches!(schema_of(P::Double, L::Unannotated), ValueSchema::F64(_)));
    assert!(matches!(schema_of(P::ByteArray, L::Unannotated), ValueSchema::ByteArray(ByteArraySchema(None))));
    assert!(matches!(
        schema_of(P::FixedLenByteArray, L::Unannotated),
        ValueSchema::ByteArray(ByteArraySchema(Some(12)))
    ));
    match schema_of(P::ByteArray, L::Utf8) {
        ValueSchema::String(s) => assert_eq!(s.0 .0, None),
        other => panic!("expected a string, found {:?}", other),
    }
    match schema_of(P::FixedLenByteArray, L::Json) {
        ValueSchema::Json(s) => assert_eq!(s.0 .0 .0, Some(12)),
        other => panic!("expected a JSON text, found {:?}", other),
    }
    match schema_of(P::ByteArray, L::Enum) {
        ValueSchema::Enum(s) => assert_eq!(s.0 .0 .0, None),
        other => panic!("expected an enumeration, found {:?}", other),
    }
    match schema_of(P::FixedLenByteArray, L::Bson) {
        ValueSchema::Bson(s) => assert_eq!(s.0 .0, Some(12)),
        other => panic!("expected a BSON document, found {:?}", other),
    }
    assert!(matches!(
        schema_of(P::FixedLenByteArray, L::Decimal),
        ValueSchema::Decimal(DecimalSchema::Array {
            byte_array_schema: ByteArraySchema(Some(12)),
            precision: 9,
            scale: 2
        })
    ));
}

#[test]
fn annotation_without_meaning_leaves_the_physical_type() {
    assert!(matches!(schema_of(P::Boolean, L::Utf8), ValueSchema::Bool(_)));
    assert!(matches!(schema_of(P::Int32, L::Utf8), ValueSchema::I32(_)));
    assert!(matches!(schema_of(P::Int64, L::Date), ValueSchema::I64(_)));
    assert!(matches!(schema_of(P::Int96, L::Date), ValueSchema::Timestamp(TimestampSchema::Int96)));
    assert!(matches!(schema_of(P::Float, L::Date), ValueSchema::F32(_)));
    assert!(matches!(schema_of(P::Double, L::Date), ValueSchema::F64(_)));
    assert!(matches!(schema_of(P::ByteArray, L::Date), ValueSchema::ByteArray(ByteArraySchema(None))));
}

#[test]
fn three_level_list_records_uncommon_names_only() {
    let element = int32("item", Repetition::Optional);
    let list = group("bag", Some(Repetition::Repeated), LogicalType::Unannotated, vec![element]);
    let xs = group("xs", Some(Repetition::Required), LogicalType::List, vec![list]);
    assert!(xs.is_valid());
    let list = parse_list(&xs).unwrap();
    match &list.1 {
        ListSchemaType::List(Some(list_name), Some(element_name)) => {
            assert_eq!(list_name, "bag");
            assert_eq!(element_name, "item");
        }
        other => panic!("expected recorded names, found {:?}", other),
    }
    match &list.0 {
        ValueSchema::Option(inner) => assert!(matches!(inner.0, ValueSchema::I32(_))),
        other => panic!("expected an optional element, found {:?}", other),
    }
}

#[test]
fn repeated_group_named_array_or_tuple_is_the_element() {
    for name in ["array", "xs_tuple"] {
        let inner = group(
            name,
            Some(Repetition::Repeated),
            LogicalType::Unannotated,
            vec![int32("a", Repetition::Required)],
        );
        let xs = group("xs", Some(Repetition::Required), LogicalType::List, vec![inner]);
        let list = parse_list(&xs).unwrap();
        match &list.1 {
            ListSchemaType::ListCompat(element_name) => assert_eq!(element_name, name),
            other => panic!("expected the two-level layout, found {:?}", other),
        }
        assert!(matches!(list.0, ValueSchema::Group(_)));
    }
}

#[test]
fn repeated_group_of_two_fields_is_the_element() {
    let inner = group(
        "pair",
        Some(Repetition::Repeated),
        LogicalType::Unannotated,
        vec![int32("a", Repetition::Required), int32("b", Repetition::Required)],
    );
    let xs = group("xs", Some(Repetition::Required), LogicalType::List, vec![inner]);
    let list = parse_list(&xs).unwrap();
    assert!(matches!(list.1, ListSchemaType::ListCompat(_)));
    match &list.0 {
        ValueSchema::Group(g) => assert_eq!(g.0.len(), 2),
        other => panic!("expected a group, found {:?}", other),
    }
}

#[test]
fn list_wrapper_of_wrong_shape_is_malformed() {
    let two = group(
        "xs",
        Some(Repetition::Required),
        LogicalType::List,
        vec![int32("a", Repetition::Repeated), int32("b", Repetition::Repeated)],
    );
    assert!(matches!(parse_list(&two), Err(ParquetError::MalformedListWrapper)));
    let not_repeated =
        group("xs", Some(Repetition::Required), LogicalType::List, vec![int32("a", Repetition::Required)]);
    assert!(matches!(parse_list(&not_repeated), Err(ParquetError::MalformedListWrapper)));
    let not_annotated =
        group("xs", Some(Repetition::Required), LogicalType::Unannotated, vec![int32("a", Repetition::Repeated)]);
    assert!(matches!(parse_list(&not_annotated), Err(ParquetError::MalformedListWrapper)));
    assert!(matches!(parse_list(&int32("x", Repetition::Required)), Err(ParquetError::MalformedListWrapper)));
}

#[test]
fn malformed_list_wrapper_is_read_as_a_group() {
    let two = group(
        "xs",
        Some(Repetition::Required),
        LogicalType::List,
        vec![int32("a", Repetition::Required), int32("b", Repetition::Required)],
    );
    let (_, schema) = Value::parse(&two, Some(Repetition::Required)).unwrap();
    assert!(matches!(schema, ValueSchema::Group(_)));
}

#[test]
fn list_parse_goes_by_the_repetition() {
    let element = int32("element", Repetition::Required);
    let list = group("list", Some(Repetition::Repeated), LogicalType::Unannotated, vec![element]);
    let xs = group("xs", Some(Repetition::Required), LogicalType::List, vec![list]);
    let (name, schema) = List::<Value>::parse(&xs, Some(Repetition::Required)).unwrap();
    assert_eq!(name, "xs");
    assert!(matches!(schema.1, ListSchemaType::List(None, None)));
    let bare = int32("ys", Repetition::Repeated);
    let (name, schema) = List::<Value>::parse(&bare, Some(Repetition::Repeated)).unwrap();
    assert_eq!(name, "ys");
    assert!(matches!(schema.1, ListSchemaType::Repeated));
    assert!(matches!(schema.0, ValueSchema::I32(_)));
    assert!(matches!(
        List::<Value>::parse(&xs, Some(Repetition::Optional)),
        Err(ParquetError::MalformedListWrapper)
    ));
    assert!(matches!(List::<Value>::parse(&xs, None), Err(ParquetError::MalformedListWrapper)));
}

fn map_type(annotation: LogicalType, pair_name: &str, key: Type, value: Type) -> Type {
    let pair = group(pair_name, Some(Repetition::Repeated), LogicalType::Unannotated, vec![key, value]);
    group("m", Some(Repetition::Required), annotation, vec![pair])
}

#[test]
fn map_keeps_an_optional_value_and_uncommon_names() {
    let key = primitive("k", Repetition::Required, PhysicalType::ByteArray, LogicalType::Utf8);
    let value = int32("value", Repetition::Optional);
    let m = map_type(LogicalType::MapAnnotated, "entries", key, value);
    assert!(m.is_valid());
    let map = parse_map(&m).unwrap();
    assert!(matches!(map.0, ValueSchema::String(_)));
    match &map.1 {
        ValueSchema::Option(inner) => assert!(matches!(inner.0, ValueSchema::I32(_))),
        other => panic!("expected an optional value, found {:?}", other),
    }
    assert_eq!(map.2.as_deref(), Some("entries"));
    assert_eq!(map.3.as_deref(), Some("k"));
    assert_eq!(map.4, None);
    let (_, schema) = Value::parse(&m, Some(Repetition::Required)).unwrap();
    assert!(matches!(schema, ValueSchema::Mapping(_)));
}

#[test]
fn map_key_value_annotation_is_a_map_too() {
    let m = map_type(
        LogicalType::MapKeyValue,
        "key_value",
        int32("key", Repetition::Required),
        int32("value", Repetition::Required),
    );
    let map = parse_map(&m).unwrap();
    assert_eq!(map.2, None);
    assert_eq!(map.3, None);
    assert_eq!(map.4, None);
}

#[test]
fn map_wrapper_of_wrong_shape_is_malformed() {
    let optional_key = map_type(
        LogicalType::MapAnnotated,
        "key_value",
        int32("key", Repetition::Optional),
        int32("value", Repetition::Required),
    );
    assert!(matches!(parse_map(&optional_key), Err(ParquetError::MalformedMapWrapper)));
    let one_child = group(
        "m",
        Some(Repetition::Required),
        LogicalType::MapAnnotated,
        vec![group(
            "key_value",
            Some(Repetition::Repeated),
            LogicalType::Unannotated,
            vec![int32("key", Repetition::Required)],
        )],
    );
    assert!(matches!(parse_map(&one_child), Err(ParquetError::MalformedMapWrapper)));
    assert!(matches!(parse_map(&int32("x", Repetition::Required)), Err(ParquetError::MalformedMapWrapper)));
}

#[test]
fn group_fields_keep_their_order_and_names() {
    let g = group(
        "g",
        Some(Repetition::Required),
        LogicalType::Unannotated,
        vec![
            int32("b", Repetition::Required),
            int32("a", Repetition::Optional),
            int32("c", Repetition::Repeated),
        ],
    );
    assert!(g.is_valid());
    let (name, schema) = Group::parse(&g, Some(Repetition::Required)).unwrap();
    assert_eq!(name, "g");
    assert_eq!(schema.0.len(), 3);
    let names: Vec<(&String, &usize)> = schema.1.iter().collect();
    assert_eq!(
        names,
        vec![(&"b".to_string(), &0usize), (&"a".to_string(), &1usize), (&"c".to_string(), &2usize)]
    );
    assert!(matches!(schema.0[0], ValueSchema::I32(_)));
    assert!(matches!(schema.0[1], ValueSchema::Option(_)));
    assert!(matches!(schema.0[2], ValueSchema::List(_)));
    assert!(ValueSchema::Group(schema).is_wf());
}

#[test]
fn group_parse_refuses_what_is_no_required_group() {
    let g = group("g", Some(Repetition::Optional), LogicalType::Unannotated, vec![int32("a", Repetition::Required)]);
    assert!(matches!(
        Group::parse(&g, Some(Repetition::Optional)),
        Err(ParquetError::ClassificationFailed { .. })
    ));
    assert!(matches!(
        Group::parse(&int32("x", Repetition::Required), Some(Repetition::Required)),
        Err(ParquetError::ClassificationFailed { .. })
    ));
}

#[test]
fn first_failing_field_gives_the_failure() {
    let g = group(
        "g",
        Some(Repetition::Required),
        LogicalType::Unannotated,
        vec![
            int32("a", Repetition::Required),
            group("first", Some(Repetition::Required), LogicalType::Unannotated, vec![]),
            group("second", Some(Repetition::Required), LogicalType::Unannotated, vec![]),
        ],
    );
    match Value::parse(&g, Some(Repetition::Required)) {
        Err(ParquetError::ClassificationFailed { context }) => assert_eq!(context, "first"),
        other => panic!("expected a failed classification, found {:?}", other),
    }
}

#[test]
fn validity_asks_for_repetitions_distinct_names_and_usable_numbers() {
    let duplicate = group(
        "g",
        Some(Repetition::Required),
        LogicalType::Unannotated,
        vec![int32("a", Repetition::Required), int32("a", Repetition::Optional)],
    );
    assert!(!duplicate.is_valid());
    let missing = group(
        "g",
        Some(Repetition::Required),
        LogicalType::Unannotated,
        vec![group("h", None, LogicalType::Unannotated, vec![])],
    );
    assert!(!missing.is_valid());
    let negative_length =
        primitive("f", Repetition::Required, PhysicalType::FixedLenByteArray, LogicalType::Unannotated);
    assert!(!negative_length.is_valid());
    assert!(!negative_length.has_valid_numbers());
    let negative_precision = primitive("d", Repetition::Required, PhysicalType::Int32, LogicalType::Decimal);
    assert!(!negative_precision.is_valid());
    let unused_numbers = primitive("b", Repetition::Required, PhysicalType::Boolean, LogicalType::Decimal);
    assert!(unused_numbers.is_valid());
    let nested = group("outer", None, LogicalType::Unannotated, vec![duplicate]);
    assert!(!nested.is_valid());
}

#[test]
fn column_paths_follow_the_tree() {
    let element = int32("element", Repetition::Required);
    let list = group("list", Some(Repetition::Repeated), LogicalType::Unannotated, vec![element]);
    let xs = group("xs", Some(Repetition::Required), LogicalType::List, vec![list]);
    let root = group(
        "root",
        None,
        LogicalType::Unannotated,
        vec![int32("a", Repetition::Required), xs, int32("b", Repetition::Optional)],
    );
    let paths = root.column_paths();
    let expected: Vec<Vec<String>> = vec![
        vec!["a".to_string()],
        vec!["xs".to_string(), "list".to_string(), "element".to_string()],
        vec!["b".to_string()],
    ];
    assert_eq!(paths, expected);
}

#[test]
fn boxed_schema_is_the_schema_of_the_value() {
    let ty = int32("x", Repetition::Optional);
    let (name, schema) = boxed::parse(&ty, Some(Repetition::Optional)).unwrap();
    assert_eq!(name, "x");
    assert!(matches!(schema.0, ValueSchema::Option(_)));
}
