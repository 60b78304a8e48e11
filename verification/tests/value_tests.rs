use hoardbase::admin::BasicColumn;
use hoardbase::value::{
    clone_document, json_field_type, str_eq, Document, JsonFieldType, Value,
};

#[test]
fn document_get_set_take_remove() {
    let mut d = Document::new();
    d.set("a".to_string(), Value::Int64(1));
    d.set("b".to_string(), Value::Int64(2));
    d.set("a".to_string(), Value::Int64(3));
    assert_eq!(d.len(), 2);
    assert_eq!(d.get("a"), Some(&Value::Int64(3)));
    assert!(d.contains_key("b"));
    assert_eq!(d.take("b"), Some(Value::Int64(2)));
    assert_eq!(d.take("b"), None);
    d.remove("a");
    assert_eq!(d.len(), 0);
}

#[test]
fn deep_clone_equals_original() {
    let mut inner = Document::new();
    inner.set("x".to_string(), Value::Array(vec![Value::Int32(1), Value::Null]));
    let mut d = Document::new();
    d.set("inner".to_string(), Value::Object(inner));
    let c = clone_document(&d);
    assert_eq!(c, d);
}

#[test]
fn string_comparison_is_by_characters() {
    assert!(str_eq("snowman \u{2603}", "snowman \u{2603}"));
    assert!(!str_eq("a", "b"));
    assert!(!str_eq("a", "ab"));
    assert!(str_eq("", ""));
}

#[test]
fn binding_kind_of_values() {
    assert_eq!(json_field_type(&Value::Int64(1)), JsonFieldType::Int);
    assert_eq!(json_field_type(&Value::Text("x".to_string())), JsonFieldType::String);
    assert_eq!(json_field_type(&Value::Double(0)), JsonFieldType::Float);
    assert_eq!(json_field_type(&Value::Object(Document::new())), JsonFieldType::Object);
    assert_eq!(json_field_type(&Value::Null), JsonFieldType::Null);
}

#[test]
fn admin_column_headings() {
    assert_eq!(BasicColumn::Name.as_str(), "Name");
    assert_eq!(BasicColumn::Count.as_str(), "Count");
    assert_eq!(BasicColumn::Rate.as_str(), "Rate");
}
