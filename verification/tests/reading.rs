use record_core::basic::{LogicalType, PhysicalType, Repetition};
use record_core::record::column::{ColumnSet, ColumnValue, Triplet};
use record_core::record::reader::ValueReader;
use record_core::record::schemas::{ListSchemaType, ValueSchema};
use record_core::record::types::value::Value;
use record_core::schema::{BasicTypeInfo, Type};

fn leaf(name: &str, repetition: Repetition, physical: PhysicalType, logical: LogicalType) -> Type {
    Type::PrimitiveType {
        basic_info: BasicTypeInfo {
            name: name.to_string(),
            repetition: Some(repetition),
            logical_type: logical,
        },
        physical_type: physical,
        type_length: -1,
        scale: -1,
        precision: -1,
    }
}

fn group(name: &str, repetition: Repetition, logical: LogicalType, fields: Vec<Type>) -> Type {
    Type::GroupType {
        basic_info: BasicTypeInfo {
            name: name.to_string(),
            repetition: Some(repetition),
            logical_type: logical,
        },
        fields,
    }
}

fn int32(def_level: i16, rep_level: i16, value: i32) -> Triplet {
    Triplet { def_level, rep_level, value: Some(ColumnValue::Int32(value)) }
}

fn text(def_level: i16, rep_level: i16, value: &str) -> Triplet {
    Triplet { def_level, rep_level, value: Some(ColumnValue::ByteArray(value.as_bytes().to_vec())) }
}

fn null(def_level: i16, rep_level: i16) -> Triplet {
    Triplet { def_level, rep_level, value: None }
}

fn path(segments: &[&str]) -> Vec<String> {
    segments.iter().map(|s| s.to_string()).collect()
}

/// The schema and the reader of a field of the root, over the given column paths.
fn reader_of(field: &Type, paths: &Vec<Vec<String>>) -> (ValueSchema, ValueReader) {
    assert!(field.is_valid());
    let repetition = field.get_basic_info().repetition;
    let (name, schema) = Value::parse(field, repetition).unwrap();
    assert!(schema.fits_levels(0, 0));
    let mut stack = vec![name];
    let reader = Value::reader(&schema, &mut stack, 0, 0, paths, 1024);
    assert_eq!(stack, path(&[field.name()]));
    (schema, reader)
}

fn list_of(values: &[i32]) -> Value {
    Value::List(values.iter().map(|v| Value::I32(*v)).collect::<Vec<_>>().into())
}

#[test]
fn optional_primitive_reads_present_then_absent() {
    let x = leaf("x", Repetition::Optional, PhysicalType::Int32, LogicalType::Unannotated);
    let paths = vec![path(&["x"])];
    let (_, reader) = reader_of(&x, &paths);
    let mut columns = ColumnSet::new(vec![vec![int32(1, 0, 7), null(0, 0)]]);
    assert_eq!(reader.read(&mut columns).unwrap(), Value::Option(Some(Box::new(Value::I32(7)))));
    assert_eq!(reader.read(&mut columns).unwrap(), Value::Option(None));
    assert!(!reader.has_next(&columns));
}

#[test]
fn three_level_list_reads_two_rows() {
    let element = leaf("element", Repetition::Required, PhysicalType::Int32, LogicalType::Unannotated);
    let list = group("list", Repetition::Repeated, LogicalType::Unannotated, vec![element]);
    let xs = group("xs", Repetition::Required, LogicalType::List, vec![list]);
    let paths = vec![path(&["xs", "list", "element"])];
    let (schema, reader) = reader_of(&xs, &paths);
    match &schema {
        ValueSchema::List(list) => {
            assert!(matches!(list.0, ValueSchema::I32(_)));
            assert!(matches!(list.1, ListSchemaType::List(None, None)));
        }
        _ => panic!("expected a list"),
    }
    let mut columns = ColumnSet::new(vec![vec![int32(1, 0, 1), int32(1, 1, 2), int32(1, 0, 3)]]);
    assert_eq!(reader.read(&mut columns).unwrap(), list_of(&[1, 2]));
    assert_eq!(reader.read(&mut columns).unwrap(), list_of(&[3]));
    assert!(!reader.has_next(&columns));
}

#[test]
fn legacy_two_level_list_reads_the_same_rows() {
    let array = leaf("array", Repetition::Repeated, PhysicalType::Int32, LogicalType::Unannotated);
    let xs = group("xs", Repetition::Required, LogicalType::List, vec![array]);
    let paths = vec![path(&["xs", "array"])];
    let (schema, reader) = reader_of(&xs, &paths);
    match &schema {
        ValueSchema::List(list) => {
            assert!(matches!(list.0, ValueSchema::I32(_)));
            match &list.1 {
                ListSchemaType::ListCompat(name) => assert_eq!(name, "array"),
                _ => panic!("expected the two-level layout"),
            }
        }
        _ => panic!("expected a list"),
    }
    let mut columns = ColumnSet::new(vec![vec![int32(1, 0, 1), int32(1, 1, 2), int32(1, 0, 3)]]);
    assert_eq!(reader.read(&mut columns).unwrap(), list_of(&[1, 2]));
    assert_eq!(reader.read(&mut columns).unwrap(), list_of(&[3]));
}

#[test]
fn bare_repeated_field_is_lifted_to_a_list() {
    let xs = leaf("xs", Repetition::Repeated, PhysicalType::Int32, LogicalType::Unannotated);
    let paths = vec![path(&["xs"])];
    let (schema, reader) = reader_of(&xs, &paths);
    match &schema {
        ValueSchema::List(list) => {
            assert!(matches!(list.0, ValueSchema::I32(_)));
            assert!(matches!(list.1, ListSchemaType::Repeated));
        }
        _ => panic!("expected a list"),
    }
    let mut columns = ColumnSet::new(vec![vec![int32(1, 0, 5)]]);
    assert_eq!(reader.read(&mut columns).unwrap(), list_of(&[5]));
    assert!(!reader.has_next(&columns));
}

#[test]
fn bare_repeated_field_at_definition_level_zero_is_an_empty_list() {
    let xs = leaf("xs", Repetition::Repeated, PhysicalType::Int32, LogicalType::Unannotated);
    let paths = vec![path(&["xs"])];
    let (_, reader) = reader_of(&xs, &paths);
    let mut columns = ColumnSet::new(vec![vec![int32(0, 0, 5)]]);
    assert_eq!(reader.read(&mut columns).unwrap(), list_of(&[]));
    assert!(!reader.has_next(&columns));
}

#[test]
fn map_with_optional_value_reads_present_and_absent_values() {
    let key = leaf("key", Repetition::Required, PhysicalType::ByteArray, LogicalType::Utf8);
    let value = leaf("value", Repetition::Optional, PhysicalType::Int32, LogicalType::Unannotated);
    let key_value = group("key_value", Repetition::Repeated, LogicalType::Unannotated, vec![key, value]);
    let m = group("m", Repetition::Required, LogicalType::MapAnnotated, vec![key_value]);
    let paths = vec![path(&["m", "key_value", "key"]), path(&["m", "key_value", "value"])];
    let (_, reader) = reader_of(&m, &paths);
    let mut columns = ColumnSet::new(vec![
        vec![text(1, 0, "a"), text(1, 1, "b")],
        vec![int32(2, 0, 1), null(1, 1)],
    ]);
    let map = match reader.read(&mut columns).unwrap() {
        Value::Mapping(map) => map,
        other => panic!("expected a map, found {:?}", other),
    };
    assert_eq!(map.len(), 2);
    assert_eq!(
        map.get(&Value::String("a".to_string())),
        Some(&Value::Option(Some(Box::new(Value::I32(1)))))
    );
    assert_eq!(map.get(&Value::String("b".to_string())), Some(&Value::Option(None)));
    assert!(!reader.has_next(&columns));
}

#[test]
fn map_keeps_the_later_of_two_entries_with_one_key() {
    let key = leaf("key", Repetition::Required, PhysicalType::ByteArray, LogicalType::Utf8);
    let value = leaf("value", Repetition::Required, PhysicalType::Int32, LogicalType::Unannotated);
    let key_value = group("key_value", Repetition::Repeated, LogicalType::Unannotated, vec![key, value]);
    let m = group("m", Repetition::Required, LogicalType::MapAnnotated, vec![key_value]);
    let paths = vec![path(&["m", "key_value", "key"]), path(&["m", "key_value", "value"])];
    let (_, reader) = reader_of(&m, &paths);
    let mut columns = ColumnSet::new(vec![
        vec![text(1, 0, "a"), text(1, 1, "a")],
        vec![int32(1, 0, 1), int32(1, 1, 2)],
    ]);
    let map = match reader.read(&mut columns).unwrap() {
        Value::Mapping(map) => map,
        other => panic!("expected a map, found {:?}", other),
    };
    assert_eq!(map.len(), 1);
    assert_eq!(map.get(&Value::String("a".to_string())), Some(&Value::I32(2)));
}
