use hoardbase::patch::{apply_update, PatchError};
use hoardbase::value::{Document, Value};

fn doc(fields: Vec<(&str, Value)>) -> Document {
    let mut d = Document::new();
    for (k, v) in fields {
        d.set(k.to_string(), v);
    }
    d
}

const NOW: i64 = 1_700_000_000_000;

#[test]
fn inc_adds_matching_kinds() {
    let d = doc(vec![("qty", Value::Int64(10))]);
    let u = doc(vec![("$inc", Value::Object(doc(vec![("qty", Value::Int64(5))])))]);
    let out = apply_update(&d, &u, false, NOW).unwrap();
    assert_eq!(out, doc(vec![("qty", Value::Int64(15))]));
}

#[test]
fn inc_on_text_fails() {
    let d = doc(vec![("qty", Value::Text("x".to_string()))]);
    let u = doc(vec![("$inc", Value::Object(doc(vec![("qty", Value::Int64(5))])))]);
    assert_eq!(apply_update(&d, &u, false, NOW), Err(PatchError::TypeMismatch));
}

#[test]
fn inc_overflow_is_an_error() {
    let d = doc(vec![("qty", Value::Int64(i64::MAX))]);
    let u = doc(vec![("$inc", Value::Object(doc(vec![("qty", Value::Int64(1))])))]);
    assert_eq!(apply_update(&d, &u, false, NOW), Err(PatchError::Overflow));
}

#[test]
fn set_and_unset() {
    let d = doc(vec![("a", Value::Int64(1)), ("b", Value::Int64(2))]);
    let u = doc(vec![
        ("$set", Value::Object(doc(vec![("a", Value::Text("new".to_string()))]))),
        ("$unset", Value::Object(doc(vec![("b", Value::Null)]))),
    ]);
    let out = apply_update(&d, &u, false, NOW).unwrap();
    assert_eq!(out, doc(vec![("a", Value::Text("new".to_string()))]));
}

#[test]
fn set_creates_intermediate_documents() {
    let d = Document::new();
    let u = doc(vec![("$set", Value::Object(doc(vec![("a.b.c", Value::Int64(7))])))]);
    let out = apply_update(&d, &u, false, NOW).unwrap();
    let expected = doc(vec![(
        "a",
        Value::Object(doc(vec![(
            "b",
            Value::Object(doc(vec![("c", Value::Int64(7))])),
        )])),
    )]);
    assert_eq!(out, expected);
}

#[test]
fn unset_on_missing_path_is_a_no_op() {
    let d = doc(vec![("a", Value::Int64(1))]);
    let u = doc(vec![("$unset", Value::Object(doc(vec![("x.y", Value::Null)])))]);
    let out = apply_update(&d, &u, false, NOW).unwrap();
    assert_eq!(out, doc(vec![("a", Value::Int64(1))]));
}

#[test]
fn mul_min_max() {
    let d = doc(vec![("n", Value::Int64(6))]);
    let u = doc(vec![("$mul", Value::Object(doc(vec![("n", Value::Int64(7))])))]);
    assert_eq!(
        apply_update(&d, &u, false, NOW).unwrap(),
        doc(vec![("n", Value::Int64(42))])
    );
    let u_min = doc(vec![("$min", Value::Object(doc(vec![("n", Value::Int64(3))])))]);
    assert_eq!(
        apply_update(&d, &u_min, false, NOW).unwrap(),
        doc(vec![("n", Value::Int64(3))])
    );
    let u_max = doc(vec![("$max", Value::Object(doc(vec![("n", Value::Int64(3))])))]);
    assert_eq!(
        apply_update(&d, &u_max, false, NOW).unwrap(),
        doc(vec![("n", Value::Int64(6))])
    );
}

#[test]
fn rename_moves_the_value() {
    let d = doc(vec![("old", Value::Text("v".to_string())), ("keep", Value::Int64(1))]);
    let u = doc(vec![(
        "$rename",
        Value::Object(doc(vec![("old", Value::Text("new".to_string()))])),
    )]);
    let out = apply_update(&d, &u, false, NOW).unwrap();
    assert_eq!(
        out,
        doc(vec![("keep", Value::Int64(1)), ("new", Value::Text("v".to_string()))])
    );
    let u2 = doc(vec![(
        "$rename",
        Value::Object(doc(vec![("absent", Value::Text("new".to_string()))])),
    )]);
    assert_eq!(apply_update(&d, &u2, false, NOW), Err(PatchError::MissingTarget));
}

#[test]
fn current_date_writes_the_clock() {
    let d = Document::new();
    let u = doc(vec![(
        "$currentDate",
        Value::Object(doc(vec![("stamp", Value::Text("date".to_string()))])),
    )]);
    let out = apply_update(&d, &u, false, NOW).unwrap();
    assert_eq!(out, doc(vec![("stamp", Value::DateTime(NOW))]));
    let bad = doc(vec![(
        "$currentDate",
        Value::Object(doc(vec![("stamp", Value::Text("century".to_string()))])),
    )]);
    assert_eq!(apply_update(&d, &bad, false, NOW), Err(PatchError::BadOperand));
}

#[test]
fn pop_front_and_back() {
    let d = doc(vec![(
        "arr",
        Value::Array(vec![Value::Int64(1), Value::Int64(2), Value::Int64(3)]),
    )]);
    let back = doc(vec![("$pop", Value::Object(doc(vec![("arr", Value::Int32(1))])))]);
    assert_eq!(
        apply_update(&d, &back, false, NOW).unwrap(),
        doc(vec![("arr", Value::Array(vec![Value::Int64(1), Value::Int64(2)]))])
    );
    let front = doc(vec![("$pop", Value::Object(doc(vec![("arr", Value::Int32(-1))])))]);
    assert_eq!(
        apply_update(&d, &front, false, NOW).unwrap(),
        doc(vec![("arr", Value::Array(vec![Value::Int64(2), Value::Int64(3)]))])
    );
    let missing = doc(vec![("$pop", Value::Object(doc(vec![("gone", Value::Int32(1))])))]);
    assert_eq!(apply_update(&d, &missing, false, NOW), Err(PatchError::MissingTarget));
}

#[test]
fn push_appends_and_creates() {
    let d = doc(vec![("arr", Value::Array(vec![Value::Int64(1)]))]);
    let u = doc(vec![("$push", Value::Object(doc(vec![("arr", Value::Int64(2))])))]);
    assert_eq!(
        apply_update(&d, &u, false, NOW).unwrap(),
        doc(vec![("arr", Value::Array(vec![Value::Int64(1), Value::Int64(2)]))])
    );
    let fresh = doc(vec![("$push", Value::Object(doc(vec![("list", Value::Int64(9))])))]);
    assert_eq!(
        apply_update(&Document::new(), &fresh, false, NOW).unwrap(),
        doc(vec![("list", Value::Array(vec![Value::Int64(9)]))])
    );
}

#[test]
fn set_on_insert_only_on_insert() {
    let d = doc(vec![("a", Value::Int64(1))]);
    let u = doc(vec![(
        "$setOnInsert",
        Value::Object(doc(vec![("b", Value::Int64(2))])),
    )]);
    assert_eq!(apply_update(&d, &u, false, NOW).unwrap(), d);
    assert_eq!(
        apply_update(&d, &u, true, NOW).unwrap(),
        doc(vec![("a", Value::Int64(1)), ("b", Value::Int64(2))])
    );
}

#[test]
fn reserved_and_unknown_operators() {
    let d = Document::new();
    let pull = doc(vec![("$pull", Value::Object(doc(vec![("a", Value::Int64(1))])))]);
    assert_eq!(apply_update(&d, &pull, false, NOW), Err(PatchError::UnsupportedOperator));
    let bit = doc(vec![("$bit", Value::Object(doc(vec![("a", Value::Int64(1))])))]);
    assert_eq!(apply_update(&d, &bit, false, NOW), Err(PatchError::UnsupportedOperator));
    let unknown = doc(vec![("replace", Value::Object(Document::new()))]);
    assert_eq!(apply_update(&d, &unknown, false, NOW), Err(PatchError::UnknownOperator));
    let bad_shape = doc(vec![("$set", Value::Int64(3))]);
    assert_eq!(apply_update(&d, &bad_shape, false, NOW), Err(PatchError::BadOperand));
}

#[test]
fn failed_patch_changes_nothing() {
    let d = doc(vec![("a", Value::Int64(1)), ("qty", Value::Text("x".to_string()))]);
    let u = doc(vec![
        ("$set", Value::Object(doc(vec![("a", Value::Int64(2))]))),
        ("$inc", Value::Object(doc(vec![("qty", Value::Int64(5))]))),
    ]);
    assert!(apply_update(&d, &u, false, NOW).is_err());
    // The input document is untouched; no half-applied state is observable.
    assert_eq!(d, doc(vec![("a", Value::Int64(1)), ("qty", Value::Text("x".to_string()))]));
}
