use record_core::basic::{LogicalType, PhysicalType, Repetition};
use record_core::errors::ParquetError;
use record_core::record::assembly::convert_value;
use record_core::record::column::{ColumnSet, ColumnValue, Triplet};
use record_core::record::reader::{copy_path, find_column, same_path, ValueReader};
use record_core::record::schemas::{
    BoolSchema, ByteArraySchema, DecimalSchema, I32Schema, I8Schema, ListSchema, ListSchemaType,
    OptionSchema, StringSchema, TimeSchema, TimestampSchema, U16Schema, U32Schema, U64Schema,
    U8Schema, ValueSchema,
};
use record_core::record::types::boxed;
use record_core::record::types::list::List;
use record_core::record::types::value::Value;
use record_core::record::types::{Decimal, Float32, Time, Timestamp};
use record_core::schema::{BasicTypeInfo, Type};

fn leaf(name: &str, repetition: Repetition, physical: PhysicalType, logical: LogicalType) -> Type {
    Type::PrimitiveType {
        basic_info: BasicTypeInfo {
            name: name.to_string(),
            repetition: Some(repetition),
            logical_type: logical,
        },
        physical_type: physical,
        type_length: -1,
        scale: -1,
        precision: -1,
    }
}

fn group(name: &str, repetition: Option<Repetition>, logical: LogicalType, fields: Vec<Type>) -> Type {
    Type::GroupType {
        basic_info: BasicTypeInfo { name: name.to_string(), repetition, logical_type: logical },
        fields,
    }
}

fn int32(def_level: i16, rep_level: i16, value: i32) -> Triplet {
    Triplet { def_level, rep_level, value: Some(ColumnValue::Int32(value)) }
}

fn bytes(def_level: i16, rep_level: i16, value: &[u8]) -> Triplet {
    Triplet { def_level, rep_level, value: Some(ColumnValue::ByteArray(value.to_vec())) }
}

fn null(def_level: i16, rep_level: i16) -> Triplet {
    Triplet { def_level, rep_level, value: None }
}

fn path(segments: &[&str]) -> Vec<String> {
    segments.iter().map(|s| s.to_string()).collect()
}

/// The reader of the rows of a root, over the root's own columns.
fn root_reader(root: &Type) -> ValueReader {
    assert!(root.is_valid());
    let (_, schema) = Value::parse(root, None).unwrap();
    assert!(schema.is_wf());
    assert!(schema.fits_levels(0, 0));
    let paths = root.column_paths();
    let mut stack = Vec::new();
    let reader = Value::reader(&schema, &mut stack, 0, 0, &paths, 64);
    assert!(stack.is_empty());
    assert!(reader.is_wf());
    reader
}

fn decoder_message<T: std::fmt::Debug>(r: Result<T, ParquetError>) -> String {
    match r {
        Err(ParquetError::DecoderError { inner }) => inner,
        other => panic!("expected a failure of the decoder, found {:?}", other),
    }
}

fn sample_root() -> Type {
    let element = leaf("element", Repetition::Optional, PhysicalType::Int32, LogicalType::Unannotated);
    let list = group("list", Some(Repetition::Repeated), LogicalType::Unannotated, vec![element]);
    let xs = group("xs", Some(Repetition::Optional), LogicalType::List, vec![list]);
    group(
        "root",
        None,
        LogicalType::Unannotated,
        vec![
            leaf("id", Repetition::Required, PhysicalType::Int32, LogicalType::Unannotated),
            xs,
            leaf("name", Repetition::Optional, PhysicalType::ByteArray, LogicalType::Utf8),
        ],
    )
}

#[test]
fn leaves_stand_at_their_levels_and_paths() {
    let reader = root_reader(&sample_root());
    let group = match &reader {
        ValueReader::Group(group) => group,
        other => panic!("expected the reader of a group, found {:?}", other),
    };
    assert_eq!((group.def_level, group.rep_level), (0, 0));
    assert_eq!(group.readers.len(), 3);
    let names: Vec<&String> = group.fields.keys().collect();
    assert_eq!(names, vec!["id", "xs", "name"]);
    match &group.readers[0] {
        ValueReader::Primitive(leaf) => {
            assert_eq!(leaf.path, path(&["id"]));
            assert_eq!((leaf.def_level, leaf.rep_level), (0, 0));
            assert_eq!(leaf.column, Some(0));
            assert_eq!(leaf.batch_size, 64);
            assert!(matches!(leaf.schema, ValueSchema::I32(_)));
        }
        other => panic!("expected a leaf, found {:?}", other),
    }
    let list = match &group.readers[1] {
        ValueReader::Option(option) => {
            assert_eq!((option.def_level, option.rep_level), (0, 0));
            match &option.reader {
                ValueReader::List(list) => list,
                other => panic!("expected the reader of a list, found {:?}", other),
            }
        }
        other => panic!("expected the reader of an option, found {:?}", other),
    };
    assert_eq!((list.def_level, list.rep_level), (1, 0));
    match &list.reader {
        ValueReader::Option(option) => {
            assert_eq!((option.def_level, option.rep_level), (2, 1));
            match &option.reader {
                ValueReader::Primitive(leaf) => {
                    assert_eq!(leaf.path, path(&["xs", "list", "element"]));
                    assert_eq!((leaf.def_level, leaf.rep_level), (3, 1));
                    assert_eq!(leaf.column, Some(1));
                }
                other => panic!("expected a leaf, found {:?}", other),
            }
        }
        other => panic!("expected the reader of an option, found {:?}", other),
    }
    match &group.readers[2] {
        ValueReader::Option(option) => match &option.reader {
            ValueReader::Primitive(leaf) => {
                assert_eq!(leaf.path, path(&["name"]));
                assert_eq!((leaf.def_level, leaf.rep_level), (1, 0));
                assert_eq!(leaf.column, Some(2));
            }
            other => panic!("expected a leaf, found {:?}", other),
        },
        other => panic!("expected the reader of an option, found {:?}", other),
    }
}

#[test]
fn recorded_wrapper_names_lead_to_the_column() {
    let element = leaf("item", Repetition::Required, PhysicalType::Int32, LogicalType::Unannotated);
    let list = group("bag", Some(Repetition::Repeated), LogicalType::Unannotated, vec![element]);
    let xs = group("xs", Some(Repetition::Required), LogicalType::List, vec![list]);
    let root = group("root", None, LogicalType::Unannotated, vec![xs]);
    let reader = root_reader(&root);
    let mut columns = ColumnSet::new(vec![vec![int32(1, 0, 4)]]);
    let row = reader.read(&mut columns).unwrap().into_group().unwrap();
    assert_eq!(row["xs"], Value::List(List(vec![Value::I32(4)])));
}

#[test]
fn rows_of_a_group_are_read_field_by_field() {
    let reader = root_reader(&sample_root());
    let mut columns = ColumnSet::new(vec![
        vec![int32(0, 0, 1), int32(0, 0, 2), int32(0, 0, 3)],
        vec![int32(3, 0, 10), null(2, 1), int32(3, 1, 30), null(0, 0), null(1, 0)],
        vec![bytes(1, 0, b"one"), null(0, 0), bytes(1, 0, b"three")],
    ]);
    let rows = reader.read_all(&mut columns).unwrap();
    assert_eq!(rows.len(), 3);
    let first = rows[0].as_group().unwrap();
    assert_eq!(first[0], Value::I32(1));
    assert_eq!(
        first["xs"],
        Value::Option(Some(Box::new(Value::List(List(vec![
            Value::Option(Some(Box::new(Value::I32(10)))),
            Value::Option(None),
            Value::Option(Some(Box::new(Value::I32(30)))),
        ])))))
    );
    assert_eq!(first["name"], Value::Option(Some(Box::new(Value::String("one".to_string())))));
    let second = rows[1].as_group().unwrap();
    assert_eq!(second["id"], Value::I32(2));
    assert_eq!(second["xs"], Value::Option(None));
    assert_eq!(second["name"], Value::Option(None));
    let third = rows[2].as_group().unwrap();
    assert_eq!(third["id"], Value::I32(3));
    assert_eq!(third["xs"], Value::Option(Some(Box::new(Value::List(List(vec![]))))));
    assert_eq!(third["name"], Value::Option(Some(Box::new(Value::String("three".to_string())))));
    for row in &rows {
        assert!(row.is_wf());
        let group = row.as_group().unwrap();
        let names: Vec<(String, usize)> = group.field_names().iter().map(|(k, v)| (k.clone(), *v)).collect();
        assert_eq!(names, vec![("id".to_string(), 0), ("xs".to_string(), 1), ("name".to_string(), 2)]);
    }
    assert!(!reader.has_next(&columns));
    assert_eq!(reader.read_all(&mut columns).unwrap(), Vec::<Value>::new());
}

#[test]
fn a_leaf_without_column_fails_to_read() {
    let schema = ValueSchema::I32(I32Schema);
    let mut stack = path(&["x"]);
    let reader = Value::reader(&schema, &mut stack, 0, 0, &vec![path(&["y"])], 1);
    match &reader {
        ValueReader::Primitive(leaf) => assert_eq!(leaf.column, None),
        other => panic!("expected a leaf, found {:?}", other),
    }
    let mut columns = ColumnSet::new(vec![vec![int32(0, 0, 1)]]);
    assert!(!reader.has_next(&columns));
    assert_eq!(reader.current_def_level(&columns), 0);
    assert_eq!(decoder_message(reader.read(&mut columns)), "no value is left in the column");
    assert_eq!(decoder_message(reader.advance_columns(&mut columns)), "no value is left in the column");
}

#[test]
fn reading_past_the_end_or_a_missing_value_fails() {
    let schema = ValueSchema::I32(I32Schema);
    let mut stack = path(&["x"]);
    let reader = Value::reader(&schema, &mut stack, 0, 0, &vec![path(&["x"])], 1);
    let mut columns = ColumnSet::new(vec![vec![null(0, 0), int32(0, 0, 1)]]);
    assert_eq!(decoder_message(reader.read(&mut columns)), "the column holds no value here");
    assert_eq!(reader.read(&mut columns).unwrap(), Value::I32(1));
    assert_eq!(decoder_message(reader.read(&mut columns)), "no value is left in the column");
    assert_eq!(decoder_message(reader.read_all(&mut ColumnSet::new(vec![vec![null(0, 0)]]))), "the column holds no value here");
}

#[test]
fn column_set_peeks_and_advances() {
    let mut columns = ColumnSet::new(vec![vec![int32(2, 1, 7), null(1, 0)], vec![]]);
    assert_eq!(columns.len(), 2);
    assert!(columns.has_next(Some(0)));
    assert!(!columns.has_next(Some(1)));
    assert!(!columns.has_next(Some(2)));
    assert!(!columns.has_next(None));
    assert_eq!(columns.next_definition_level(Some(0)), 2);
    assert_eq!(columns.next_definition_level(Some(0)), 2);
    assert_eq!(columns.next_repetition_level(Some(0)), 1);
    assert_eq!(columns.next_definition_level(Some(1)), 0);
    assert_eq!(columns.slots_left(Some(0)), 2);
    columns.batch_size_hint(10);
    assert!(matches!(columns.advance_value(Some(0)), Ok(ColumnValue::Int32(7))));
    assert_eq!(columns.slots_left(Some(0)), 1);
    assert_eq!(columns.next_definition_level(Some(0)), 1);
    assert!(columns.advance_null(Some(0)).is_ok());
    assert_eq!(columns.slots_left(Some(0)), 0);
    assert_eq!(decoder_message(columns.advance_null(Some(0))), "no value is left in the column");
    assert_eq!(decoder_message(columns.advance_value(Some(1))), "no value is left in the column");
}

fn converted(schema: ValueSchema, value: ColumnValue) -> Value {
    convert_value(&schema, value).unwrap()
}

#[test]
fn column_values_become_values_of_the_schema() {
    assert_eq!(converted(ValueSchema::Bool(BoolSchema), ColumnValue::Boolean(true)), Value::Bool(true));
    assert_eq!(converted(ValueSchema::U8(U8Schema), ColumnValue::Int32(255)), Value::U8(255));
    assert_eq!(converted(ValueSchema::U8(U8Schema), ColumnValue::Int32(300)), Value::U8(44));
    assert_eq!(converted(ValueSchema::I8(I8Schema), ColumnValue::Int32(-1)), Value::I8(-1));
    assert_eq!(converted(ValueSchema::U16(U16Schema), ColumnValue::Int32(65535)), Value::U16(65535));
    assert_eq!(converted(ValueSchema::U32(U32Schema), ColumnValue::Int32(-1)), Value::U32(u32::MAX));
    assert_eq!(converted(ValueSchema::U64(U64Schema), ColumnValue::Int64(-1)), Value::U64(u64::MAX));
    assert_eq!(
        converted(ValueSchema::Time(TimeSchema::Millis), ColumnValue::Int32(1)),
        Value::Time(Time(1000))
    );
    assert_eq!(
        converted(ValueSchema::Time(TimeSchema::Millis), ColumnValue::Int32(i32::MAX)),
        Value::Time(Time(2_147_483_647_000))
    );
    assert_eq!(
        converted(ValueSchema::Time(TimeSchema::Micros), ColumnValue::Int64(5)),
        Value::Time(Time(5))
    );
    assert_eq!(
        converted(
            ValueSchema::Timestamp(TimestampSchema::Int96),
            ColumnValue::Int96 { julian_day: 2_440_588, nanos_of_day: 9 }
        ),
        Value::Timestamp(Timestamp::Int96 { julian_day: 2_440_588, nanos_of_day: 9 })
    );
    assert_eq!(
        converted(ValueSchema::Timestamp(TimestampSchema::Millis), ColumnValue::Int64(-5)),
        Value::Timestamp(Timestamp::Millis(-5))
    );
    assert_eq!(
        converted(ValueSchema::Timestamp(TimestampSchema::Micros), ColumnValue::Int64(5)),
        Value::Timestamp(Timestamp::Micros(5))
    );
    assert!(
        converted(
            ValueSchema::Decimal(DecimalSchema::Int32 { precision: 9, scale: 2 }),
            ColumnValue::Int32(-5)
        ) == Decimal::Int32 { value: -5, precision: 9, scale: 2 }
    );
    assert!(
        converted(
            ValueSchema::Decimal(DecimalSchema::Array {
                byte_array_schema: ByteArraySchema(Some(2)),
                precision: 4,
                scale: 1
            }),
            ColumnValue::ByteArray(vec![1, 2])
        ) == Decimal::Bytes { value: vec![1, 2], precision: 4, scale: 1 }
    );
    assert_eq!(
        converted(ValueSchema::ByteArray(ByteArraySchema(None)), ColumnValue::ByteArray(vec![1, 2, 3])),
        Value::ByteArray(vec![1, 2, 3])
    );
    assert_eq!(
        converted(
            ValueSchema::String(StringSchema(ByteArraySchema(None))),
            ColumnValue::ByteArray("gr\u{fc}n".as_bytes().to_vec())
        ),
        Value::String("gr\u{fc}n".to_string())
    );
    assert!(
        converted(ValueSchema::F32(record_core::record::schemas::F32Schema), ColumnValue::Float(Float32 { bits: 1 }))
            .as_f32()
            .unwrap()
            .bits
            == 1
    );
}

#[test]
fn column_values_that_do_not_fit_fail() {
    let unfit = "the column's value does not fit the schema";
    assert_eq!(decoder_message(convert_value(&ValueSchema::Bool(BoolSchema), ColumnValue::Int32(1))), unfit);
    assert_eq!(decoder_message(convert_value(&ValueSchema::I32(I32Schema), ColumnValue::Int64(1))), unfit);
    assert_eq!(
        decoder_message(convert_value(&ValueSchema::Time(TimeSchema::Millis), ColumnValue::Int32(-1))),
        unfit
    );
    assert_eq!(
        decoder_message(convert_value(&ValueSchema::Time(TimeSchema::Micros), ColumnValue::Int64(-1))),
        unfit
    );
    assert_eq!(
        decoder_message(convert_value(
            &ValueSchema::ByteArray(ByteArraySchema(Some(2))),
            ColumnValue::ByteArray(vec![1])
        )),
        unfit
    );
    assert_eq!(
        decoder_message(convert_value(
            &ValueSchema::String(StringSchema(ByteArraySchema(None))),
            ColumnValue::ByteArray(vec![0xff, 0xfe])
        )),
        unfit
    );
    assert_eq!(
        decoder_message(convert_value(
            &ValueSchema::String(StringSchema(ByteArraySchema(Some(3)))),
            ColumnValue::ByteArray(b"ab".to_vec())
        )),
        unfit
    );
}

#[test]
fn levels_must_fit_sixteen_bits() {
    let option = ValueSchema::Option(Box::new(OptionSchema(ValueSchema::I32(I32Schema))));
    assert!(option.fits_levels(i16::MAX - 1, i16::MAX));
    assert!(!option.fits_levels(i16::MAX, 0));
    let list = ValueSchema::List(Box::new(ListSchema(ValueSchema::I32(I32Schema), ListSchemaType::Repeated)));
    assert!(list.fits_levels(i16::MAX - 1, i16::MAX - 1));
    assert!(!list.fits_levels(0, i16::MAX));
    assert!(!list.fits_levels(i16::MAX, 0));
    assert!(ValueSchema::I32(I32Schema).fits_levels(i16::MAX, i16::MAX));
}

#[test]
fn paths_are_compared_and_found_segment_by_segment() {
    assert!(same_path(&path(&["a", "b"]), &path(&["a", "b"])));
    assert!(!same_path(&path(&["a", "b"]), &path(&["a"])));
    assert!(!same_path(&path(&["a", "b"]), &path(&["a", "c"])));
    assert!(same_path(&path(&[]), &path(&[])));
    let paths = vec![path(&["a"]), path(&["a", "b"]), path(&["a"])];
    assert_eq!(find_column(&paths, &path(&["a"])), Some(0));
    assert_eq!(find_column(&paths, &path(&["a", "b"])), Some(1));
    assert_eq!(find_column(&paths, &path(&["b"])), None);
    assert_eq!(copy_path(&path(&["x", "y"])), path(&["x", "y"]));
}

#[test]
fn boxed_reader_reads_what_its_reader_reads() {
    let ty = leaf("x", Repetition::Optional, PhysicalType::Int32, LogicalType::Unannotated);
    let (name, schema) = boxed::parse(&ty, Some(Repetition::Optional)).unwrap();
    let mut stack = vec![name];
    let reader = ValueReader::Boxed(boxed::reader(&schema, &mut stack, 0, 0, &vec![path(&["x"])], 1));
    assert!(reader.is_wf());
    assert!(reader.reads_option());
    let mut columns = ColumnSet::new(vec![vec![int32(1, 0, 7), null(0, 0)]]);
    assert_eq!(reader.read(&mut columns).unwrap(), Value::Option(Some(Box::new(Value::I32(7)))));
    assert_eq!(reader.read(&mut columns).unwrap(), Value::Option(None));
}

#[test]
fn nested_lists_are_cut_by_their_repetition_levels() {
    let inner_element = leaf("element", Repetition::Required, PhysicalType::Int32, LogicalType::Unannotated);
    let inner_list = group("list", Some(Repetition::Repeated), LogicalType::Unannotated, vec![inner_element]);
    let inner = group("element", Some(Repetition::Required), LogicalType::List, vec![inner_list]);
    let outer_list = group("list", Some(Repetition::Repeated), LogicalType::Unannotated, vec![inner]);
    let xs = group("xs", Some(Repetition::Required), LogicalType::List, vec![outer_list]);
    let root = group("root", None, LogicalType::Unannotated, vec![xs]);
    assert_eq!(root.column_paths(), vec![path(&["xs", "list", "element", "list", "element"])]);
    let reader = root_reader(&root);
    let mut columns = ColumnSet::new(vec![vec![
        int32(2, 0, 1),
        int32(2, 2, 2),
        int32(2, 1, 3),
        null(1, 1),
        int32(2, 0, 4),
        null(0, 0),
    ]]);
    let rows = reader.read_all(&mut columns).unwrap();
    let lists: Vec<Value> = rows.into_iter().map(|row| row.into_group().unwrap().into_fields().remove(0)).collect();
    let ints = |values: &[i32]| Value::List(List(values.iter().map(|v| Value::I32(*v)).collect()));
    assert_eq!(
        lists,
        vec![
            Value::List(List(vec![ints(&[1, 2]), ints(&[3]), ints(&[])])),
            Value::List(List(vec![ints(&[4])])),
            Value::List(List(vec![])),
        ]
    );
}

#[test]
fn a_reader_with_a_leaf_of_a_composite_schema_is_not_well_formed() {
    let schema = ValueSchema::I32(I32Schema);
    let mut stack = path(&["x"]);
    let reader = Value::reader(&schema, &mut stack, 0, 0, &vec![path(&["x"])], 1);
    let broken = match reader {
        ValueReader::Primitive(mut leaf) => {
            leaf.schema = ValueSchema::Option(Box::new(OptionSchema(ValueSchema::I32(I32Schema))));
            ValueReader::Primitive(leaf)
        }
        other => other,
    };
    assert!(!broken.is_wf());
}
