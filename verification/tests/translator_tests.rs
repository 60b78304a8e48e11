use hoardbase::query_translator::{QueryTranslator, SqlValue, TranslationError};
use hoardbase::value::{Document, Value};

fn doc(fields: Vec<(&str, Value)>) -> Document {
    let mut d = Document::new();
    for (k, v) in fields {
        d.set(k.to_string(), v);
    }
    d
}

fn translate(q: &Document) -> Result<(String, Vec<SqlValue>), TranslationError> {
    let mut params = Vec::new();
    let t = QueryTranslator {}.query_document(q, &mut params)?;
    Ok((t, params))
}

#[test]
fn params_in_document_order() {
    let q = doc(vec![("a", Value::Int64(1)), ("b", Value::Text("x".to_string()))]);
    let (t, params) = translate(&q).unwrap();
    assert_eq!(
        t,
        "json_field('a', raw) = ?1 AND json_field('b', raw) = ?2"
    );
    assert_eq!(
        params,
        vec![SqlValue::Integer(1), SqlValue::Text("x".to_string())]
    );
}

#[test]
fn nested_document_dot_expands() {
    let size = doc(vec![
        ("h", Value::Int64(14)),
        ("w", Value::Int64(21)),
        ("uom", Value::Text("cm".to_string())),
    ]);
    let q = doc(vec![("size", Value::Object(size))]);
    let (t, params) = translate(&q).unwrap();
    assert_eq!(
        t,
        "json_field('size.h', raw) = ?1 AND json_field('size.w', raw) = ?2 AND json_field('size.uom', raw) = ?3"
    );
    assert_eq!(params.len(), 3);
}

#[test]
fn dotted_key_compares_directly() {
    let q = doc(vec![("size.uom", Value::Text("in".to_string()))]);
    let (t, params) = translate(&q).unwrap();
    assert_eq!(t, "json_field('size.uom', raw) = ?1");
    assert_eq!(params, vec![SqlValue::Text("in".to_string())]);
}

#[test]
fn comparison_operator() {
    let q = doc(vec![(
        "size.h",
        Value::Object(doc(vec![("$lt", Value::Int64(14))])),
    )]);
    let (t, params) = translate(&q).unwrap();
    assert_eq!(t, "json_field('size.h', raw) < ?1");
    assert_eq!(params, vec![SqlValue::Integer(14)]);
}

#[test]
fn conjunction_of_mixed_clauses() {
    let q = doc(vec![
        ("size.h", Value::Object(doc(vec![("$lt", Value::Int64(15))]))),
        ("size.uom", Value::Text("in".to_string())),
        ("status", Value::Text("D".to_string())),
    ]);
    let (t, params) = translate(&q).unwrap();
    assert_eq!(
        t,
        "json_field('size.h', raw) < ?1 AND json_field('size.uom', raw) = ?2 AND json_field('status', raw) = ?3"
    );
    assert_eq!(params.len(), 3);
}

#[test]
fn nor_is_negated_or_with_same_params() {
    let arr = || {
        Value::Array(vec![
            Value::Object(doc(vec![("a", Value::Int64(1))])),
            Value::Object(doc(vec![("b", Value::Int64(2))])),
        ])
    };
    let nor_q = doc(vec![("$nor", arr())]);
    let or_q = doc(vec![("$or", arr())]);
    let (t_nor, p_nor) = translate(&nor_q).unwrap();
    let (t_or, p_or) = translate(&or_q).unwrap();
    let inner = "json_field('a', raw) = ?1 OR json_field('b', raw) = ?2";
    assert_eq!(t_or, format!("({})", inner));
    assert_eq!(t_nor, format!("NOT ({})", inner));
    assert_eq!(p_nor, p_or);
}

#[test]
fn nor_beside_other_clauses() {
    let q = doc(vec![
        (
            "$nor",
            Value::Array(vec![
                Value::Object(doc(vec![("a", Value::Int64(15))])),
                Value::Object(doc(vec![("b", Value::Int64(32))])),
            ]),
        ),
        ("status", Value::Text("D".to_string())),
    ]);
    let (t, params) = translate(&q).unwrap();
    assert_eq!(
        t,
        "NOT (json_field('a', raw) = ?1 OR json_field('b', raw) = ?2) AND json_field('status', raw) = ?3"
    );
    assert_eq!(params.len(), 3);
}

#[test]
fn in_and_nin_lists() {
    let q = doc(vec![(
        "qty",
        Value::Object(doc(vec![(
            "$in",
            Value::Array(vec![Value::Int64(5), Value::Int64(15)]),
        )])),
    )]);
    let (t, params) = translate(&q).unwrap();
    assert_eq!(t, "json_field('qty', raw) IN (?1, ?2)");
    assert_eq!(params, vec![SqlValue::Integer(5), SqlValue::Integer(15)]);

    let q2 = doc(vec![(
        "qty",
        Value::Object(doc(vec![(
            "$nin",
            Value::Array(vec![Value::Int64(5)]),
        )])),
    )]);
    let (t2, _) = translate(&q2).unwrap();
    assert_eq!(t2, "json_field('qty', raw) NOT IN (?1)");
}

#[test]
fn id_integer_is_bound_as_parameter() {
    let q = doc(vec![("_id", Value::Int64(12))]);
    let (t, params) = translate(&q).unwrap();
    assert_eq!(t, "_id = ?1");
    assert_eq!(params, vec![SqlValue::Integer(12)]);
    let q32 = doc(vec![("_id", Value::Int32(7)), ("kind", Value::Text("a".to_string()))]);
    let (t2, p2) = translate(&q32).unwrap();
    assert_eq!(t2, "_id = ?1 AND json_field('kind', raw) = ?2");
    assert_eq!(
        p2,
        vec![SqlValue::Integer(7), SqlValue::Text("a".to_string())]
    );
}

#[test]
fn id_rejections() {
    assert_eq!(
        translate(&doc(vec![("_id", Value::Text("x".to_string()))])),
        Err(TranslationError::InvalidId)
    );
    assert_eq!(
        translate(&doc(vec![("_id", Value::Null)])),
        Err(TranslationError::InvalidId)
    );
    assert_eq!(
        translate(&doc(vec![("_id", Value::Bool(true))])),
        Err(TranslationError::InvalidId)
    );
    assert_eq!(
        translate(&doc(vec![("_id", Value::Object(Document::new()))])),
        Err(TranslationError::InvalidId)
    );
}

#[test]
fn unknown_operator_is_rejected() {
    let q = doc(vec![("$frobnicate", Value::Array(vec![]))]);
    assert_eq!(translate(&q), Err(TranslationError::UnsupportedOperator));
}

#[test]
fn mod_zero_divisor_is_rejected() {
    let q = doc(vec![(
        "qty",
        Value::Object(doc(vec![(
            "$mod",
            Value::Array(vec![Value::Int64(0), Value::Int64(1)]),
        )])),
    )]);
    assert_eq!(translate(&q), Err(TranslationError::ZeroDivisor));
    let ok = doc(vec![(
        "qty",
        Value::Object(doc(vec![(
            "$mod",
            Value::Array(vec![Value::Int64(4), Value::Int64(1)]),
        )])),
    )]);
    let (t, params) = translate(&ok).unwrap();
    assert_eq!(t, "json_field('qty', raw) % ?1 = ?2");
    assert_eq!(params, vec![SqlValue::Integer(4), SqlValue::Integer(1)]);
}

#[test]
fn bad_operand_shapes_are_rejected() {
    let q = doc(vec![(
        "qty",
        Value::Object(doc(vec![("$in", Value::Int64(3))])),
    )]);
    assert_eq!(translate(&q), Err(TranslationError::BadOperand));
    let top_level_array = doc(vec![("tags", Value::Array(vec![]))]);
    assert_eq!(
        translate(&top_level_array),
        Err(TranslationError::UnsupportedType)
    );
}

#[test]
fn double_literals_stay_outside_the_engine() {
    let q = doc(vec![("pi", Value::Double(3.14f64.to_bits()))]);
    assert_eq!(translate(&q), Err(TranslationError::UnsupportedType));
}

#[test]
fn null_and_exists_and_regex() {
    let q = doc(vec![("gone", Value::Null)]);
    let (t, params) = translate(&q).unwrap();
    assert_eq!(t, "json_field('gone', raw) IS NULL");
    assert!(params.is_empty());

    let q2 = doc(vec![(
        "name",
        Value::Object(doc(vec![("$exists", Value::Bool(true))])),
    )]);
    let (t2, p2) = translate(&q2).unwrap();
    assert_eq!(t2, "json_field_exists('name', raw) = ?1");
    assert_eq!(p2, vec![SqlValue::Integer(1)]);

    let q3 = doc(vec![(
        "name",
        Value::Object(doc(vec![
            ("$regex", Value::Text("^a".to_string())),
            ("$options", Value::Text("i".to_string())),
        ])),
    )]);
    let (t3, p3) = translate(&q3).unwrap();
    assert_eq!(t3, "json_field_regex('name', raw, ?1, ?2)");
    assert_eq!(
        p3,
        vec![
            SqlValue::Text("^a".to_string()),
            SqlValue::Text("i".to_string())
        ]
    );
}

#[test]
fn placeholders_continue_from_existing_params() {
    let q = doc(vec![("kind", Value::Text("apples".to_string()))]);
    let mut params = vec![SqlValue::Blob(vec![1, 2, 3])];
    let t = QueryTranslator {}.query_document(&q, &mut params).unwrap();
    assert_eq!(t, "json_field('kind', raw) = ?2");
    assert_eq!(params.len(), 2);
}

#[test]
fn error_leaves_params_untouched() {
    let q = doc(vec![("_id", Value::Text("x".to_string()))]);
    let mut params = vec![SqlValue::Integer(7)];
    let r = QueryTranslator {}.query_document(&q, &mut params);
    assert!(r.is_err());
    assert_eq!(params, vec![SqlValue::Integer(7)]);
}

#[test]
fn empty_query_is_empty_predicate() {
    let (t, params) = translate(&Document::new()).unwrap();
    assert_eq!(t, "");
    assert!(params.is_empty());
}
