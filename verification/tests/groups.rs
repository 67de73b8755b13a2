use fxhash::FxBuildHasher;
use linked_hash_map::LinkedHashMap;
use record_core::record::types::group::{Group, Row};
use record_core::record::types::value::Value;
use std::sync::Arc;

fn index(names: &[&str]) -> Arc<LinkedHashMap<String, usize, FxBuildHasher>> {
    let mut map = LinkedHashMap::with_hasher(Default::default());
    for (i, name) in names.iter().enumerate() {
        map.insert(name.to_string(), i);
    }
    Arc::new(map)
}

fn sample() -> Group {
    Group::new(vec![Value::I32(1), Value::Bool(true), Value::String("s".to_string())], index(&["a", "b", "c"]))
}

#[test]
fn fields_are_found_by_name_and_by_position() {
    let group = sample();
    assert!(group.is_indexed());
    assert_eq!(group.get("a"), Some(&Value::I32(1)));
    assert_eq!(group.get("c"), Some(&Value::String("s".to_string())));
    assert_eq!(group.get("d"), None);
    assert_eq!(group.get_index(1), Some(&Value::Bool(true)));
    assert_eq!(group.get_index(3), None);
    assert_eq!(group[0], Value::I32(1));
    assert_eq!(group["b"], Value::Bool(true));
    assert_eq!(group.len(), 3);
}

#[test]
fn access_by_name_agrees_with_access_by_position() {
    let group = sample();
    let names = group.field_names();
    for (position, (name, ordinal)) in names.iter().enumerate() {
        assert_eq!(*ordinal, position);
        assert_eq!(group.get(name), group.get_index(position));
        assert_eq!(group[name.as_str()], group[position]);
    }
}

#[test]
fn a_field_is_changed_through_its_name() {
    let mut group = sample();
    *group.get_mut("b").unwrap() = Value::Bool(false);
    assert_eq!(group.get("b"), Some(&Value::Bool(false)));
    assert_eq!(group.get("a"), Some(&Value::I32(1)));
    assert!(group.get_mut("z").is_none());
    assert_eq!(
        group.into_fields(),
        vec![Value::I32(1), Value::Bool(false), Value::String("s".to_string())]
    );
}

#[test]
fn field_names_shares_the_index() {
    let names = index(&["a", "b", "c"]);
    let group = Group::new(vec![Value::I32(1), Value::I32(2), Value::I32(3)], names.clone());
    assert!(Arc::ptr_eq(&group.field_names(), &names));
}

#[test]
fn an_index_that_does_not_fit_is_found_out() {
    assert!(!Group::new(vec![Value::I32(1)], index(&["a", "b"])).is_indexed());
    assert!(!Group::new(vec![Value::I32(1), Value::I32(2)], index(&["a"])).is_indexed());
    let mut swapped = LinkedHashMap::with_hasher(Default::default());
    swapped.insert("a".to_string(), 1usize);
    swapped.insert("b".to_string(), 0usize);
    assert!(!Group::new(vec![Value::I32(1), Value::I32(2)], Arc::new(swapped)).is_indexed());
    assert!(Group::new(vec![], index(&[])).is_indexed());
    assert!(!Value::Group(Group::new(vec![Value::I32(1)], index(&[]))).is_wf());
    assert!(Value::Group(sample()).is_wf());
}

#[test]
fn a_map_from_names_to_values_becomes_a_group_in_its_order() {
    let mut map: LinkedHashMap<String, Value, FxBuildHasher> = LinkedHashMap::with_hasher(Default::default());
    map.insert("z".to_string(), Value::I32(1));
    map.insert("a".to_string(), Value::I32(2));
    map.insert("m".to_string(), Value::I32(3));
    map.insert("z".to_string(), Value::I32(4));
    let group = Group::from(map);
    assert!(group.is_indexed());
    let names: Vec<(String, usize)> = group.field_names().iter().map(|(k, v)| (k.clone(), *v)).collect();
    assert_eq!(names, vec![("a".to_string(), 0), ("m".to_string(), 1), ("z".to_string(), 2)]);
    assert_eq!(group.into_fields(), vec![Value::I32(2), Value::I32(3), Value::I32(4)]);
}

#[test]
fn a_group_becomes_a_map_from_names_to_values_in_its_order() {
    let map = sample().into_map();
    let entries: Vec<(String, Value)> = map.into_iter().collect();
    assert_eq!(
        entries,
        vec![
            ("a".to_string(), Value::I32(1)),
            ("b".to_string(), Value::Bool(true)),
            ("c".to_string(), Value::String("s".to_string())),
        ]
    );
}

#[test]
fn groups_are_equal_when_fields_and_names_are() {
    let a = Value::Group(sample());
    assert_eq!(a, Value::Group(sample()));
    let renamed = Group::new(
        vec![Value::I32(1), Value::Bool(true), Value::String("s".to_string())],
        index(&["a", "b", "d"]),
    );
    assert_ne!(a, Value::Group(renamed));
    let changed = Group::new(
        vec![Value::I32(2), Value::Bool(true), Value::String("s".to_string())],
        index(&["a", "b", "c"]),
    );
    assert_ne!(a, Value::Group(changed));
    assert!(a == sample());
}

#[test]
fn a_copy_of_a_group_is_equal_to_it() {
    let group = sample();
    let copy = group.clone();
    assert_eq!(Value::Group(copy), Value::Group(group));
}

#[test]
fn a_row_is_a_group() {
    let row: Row = sample();
    assert_eq!(row.len(), 3);
}
