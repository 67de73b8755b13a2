use record_core::basic::{LogicalType, PhysicalType, Repetition};
use record_core::record::display::{DisplayFmt, DisplaySchemaGroup, PadAdapter};
use record_core::record::schemas::ValueSchema;
use record_core::record::types::value::Value;
use record_core::schema::{BasicTypeInfo, Type};

fn leaf(name: &str, repetition: Repetition, physical: PhysicalType, logical: LogicalType) -> Type {
    Type::PrimitiveType {
        basic_info: BasicTypeInfo {
            name: name.to_string(),
            repetition: Some(repetition),
            logical_type: logical,
        },
        physical_type: physical,
        type_length: -1,
        scale: -1,
        precision: -1,
    }
}

fn group(name: &str, repetition: Option<Repetition>, logical: LogicalType, fields: Vec<Type>) -> Type {
    Type::GroupType {
        basic_info: BasicTypeInfo { name: name.to_string(), repetition, logical_type: logical },
        fields,
    }
}

fn three_level_message() -> Type {
    let element = leaf("element", Repetition::Required, PhysicalType::Int32, LogicalType::Unannotated);
    let list = group("list", Some(Repetition::Repeated), LogicalType::Unannotated, vec![element]);
    let xs = group("xs", Some(Repetition::Required), LogicalType::List, vec![list]);
    group("m", None, LogicalType::Unannotated, vec![xs])
}

#[test]
fn three_level_list_renders_character_for_character() {
    let message = three_level_message();
    assert!(message.is_valid());
    let (name, schema) = Value::parse(&message, None).unwrap();
    let text = ValueSchema::fmt(Some(&schema), None, Some(name.as_str()));
    assert_eq!(
        text,
        "message m {\n    required group xs (LIST) {\n        repeated group list {\n            required int32 element;\n        }\n    }\n}"
    );
}

#[test]
fn group_without_fields_closes_on_the_same_line() {
    let mut group = DisplaySchemaGroup::new(Some(Repetition::Optional), Some("g"), None);
    assert_eq!(group.finish(), "optional group g { }");
}

#[test]
fn group_header_shows_annotation_and_placeholder_name() {
    let mut group = DisplaySchemaGroup::new(None, None, Some(LogicalType::MapAnnotated));
    assert_eq!(group.finish(), "message <name> (MAP) { }");
}

#[test]
fn field_is_indented_on_every_line() {
    let mut group = DisplaySchemaGroup::new(None, Some("r"), None);
    group.field_rendered("a {\n    b;\n}");
    group.field_rendered("c;");
    assert_eq!(group.finish(), "message r {\n    a {\n        b;\n    }\n    c;\n}");
}

#[test]
fn field_of_unknown_schema_holds_a_placeholder() {
    let mut group = DisplaySchemaGroup::new(None, Some("r"), None);
    group.field(Some("f"), None);
    assert_eq!(group.finish(), "message r {\n    required <schema> f;\n}");
}

#[test]
fn pad_adapter_indents_after_each_newline() {
    let mut adapter = PadAdapter::new(Vec::new());
    adapter.write_str("a\nb");
    adapter.write_str("c\n");
    adapter.write_str("\nd");
    let text: String = adapter.fmt.iter().collect();
    assert_eq!(text, "a\n    bc\n    \n    d");
    assert!(!adapter.on_newline);
}

#[test]
fn display_fmt_calls_its_function() {
    let display = DisplayFmt::new(|| String::from("text"));
    assert_eq!(display.render(), "text");
}

#[test]
fn annotated_primitives_render_with_their_annotation() {
    let key = leaf("key", Repetition::Required, PhysicalType::ByteArray, LogicalType::Utf8);
    let (_, schema) = Value::parse(&key, Some(Repetition::Required)).unwrap();
    assert_eq!(
        ValueSchema::fmt(Some(&schema), Some(Repetition::Required), Some("key")),
        "required binary key (UTF8);"
    );
    let value = leaf("value", Repetition::Optional, PhysicalType::Int32, LogicalType::Unannotated);
    let (_, schema) = Value::parse(&value, Some(Repetition::Optional)).unwrap();
    assert_eq!(
        ValueSchema::fmt(Some(&schema), Some(Repetition::Required), Some("value")),
        "optional int32 value;"
    );
}

#[test]
fn decimal_and_fixed_length_render_their_numbers() {
    let ty = Type::PrimitiveType {
        basic_info: BasicTypeInfo {
            name: "d".to_string(),
            repetition: Some(Repetition::Required),
            logical_type: LogicalType::Decimal,
        },
        physical_type: PhysicalType::FixedLenByteArray,
        type_length: 16,
        scale: 2,
        precision: 38,
    };
    let (_, schema) = Value::parse(&ty, Some(Repetition::Required)).unwrap();
    assert_eq!(
        ValueSchema::fmt(Some(&schema), Some(Repetition::Required), Some("d")),
        "required fixed_len_byte_array(16) d (DECIMAL(38,2));"
    );
}
