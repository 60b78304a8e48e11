use hoardbase::extract::{extract, split_path};
use hoardbase::value::{Document, Value};

fn doc(fields: Vec<(&str, Value)>) -> Document {
    let mut d = Document::new();
    for (k, v) in fields {
        d.set(k.to_string(), v);
    }
    d
}

#[test]
fn split_path_segments() {
    assert_eq!(split_path("a.b.c"), vec!["a", "b", "c"]);
    assert_eq!(split_path("age"), vec!["age"]);
    assert_eq!(split_path(""), vec![""]);
    assert_eq!(split_path("a..b"), vec!["a", "", "b"]);
    assert_eq!(split_path(".x"), vec!["", "x"]);
}

#[test]
fn extract_top_level_typed() {
    let d = doc(vec![
        ("kind", Value::Text("apples".to_string())),
        ("qty", Value::Int64(5)),
    ]);
    assert_eq!(extract(&d, "kind"), Some(&Value::Text("apples".to_string())));
    assert_eq!(extract(&d, "qty"), Some(&Value::Int64(5)));
    assert_eq!(extract(&d, "missing"), None);
}

#[test]
fn extract_walks_nested_documents() {
    let d = doc(vec![(
        "qty",
        Value::Object(doc(vec![
            ("in stock", Value::Int64(8)),
            ("ordered", Value::Int64(12)),
        ])),
    )]);
    assert_eq!(extract(&d, "qty.ordered"), Some(&Value::Int64(12)));
    assert_eq!(extract(&d, "qty.in stock"), Some(&Value::Int64(8)));
    // The whole nested document is itself addressable.
    assert!(matches!(extract(&d, "qty"), Some(Value::Object(_))));
}

#[test]
fn extract_absent_as_soon_as_no_document() {
    let d = doc(vec![("leaf", Value::Int64(1))]);
    assert_eq!(extract(&d, "leaf.inner"), None);
    assert_eq!(extract(&d, "a.b.c"), None);
}
