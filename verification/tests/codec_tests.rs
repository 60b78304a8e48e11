use hoardbase::codec::{decode, encode, CodecError};
use hoardbase::value::{Document, Value};

fn doc(fields: Vec<(&str, Value)>) -> Document {
    let mut d = Document::new();
    for (k, v) in fields {
        d.set(k.to_string(), v);
    }
    d
}

#[test]
fn codec_round_trip_empty() {
    let d = Document::new();
    let bytes = encode(&d);
    let back = decode(&bytes).unwrap();
    assert_eq!(back, d);
}

#[test]
fn codec_round_trip_scalars() {
    let d = doc(vec![
        ("null", Value::Null),
        ("yes", Value::Bool(true)),
        ("no", Value::Bool(false)),
        ("small", Value::Int32(-42)),
        ("big", Value::Int64(9_007_199_254_740_993)),
        ("pi", Value::Double(3.141592653589793f64.to_bits())),
        ("name", Value::Text("hello world".to_string())),
        ("blob", Value::Binary(vec![0, 1, 2, 254, 255])),
        ("when", Value::DateTime(1_700_000_000_000)),
    ]);
    let bytes = encode(&d);
    let back = decode(&bytes).unwrap();
    assert_eq!(back, d);
    // The double survives bit for bit.
    match back.get("pi").unwrap() {
        Value::Double(bits) => assert_eq!(f64::from_bits(*bits), 3.141592653589793),
        _ => panic!("wrong kind"),
    }
}

#[test]
fn codec_round_trip_nested() {
    let inner = doc(vec![("a", Value::Int64(1)), ("b", Value::Text("x".to_string()))]);
    let d = doc(vec![
        ("arr", Value::Array(vec![
            Value::Int32(1),
            Value::Text("two".to_string()),
            Value::Array(vec![Value::Null]),
            Value::Object(doc(vec![("deep", Value::Bool(true))])),
        ])),
        ("obj", Value::Object(inner)),
    ]);
    let bytes = encode(&d);
    let back = decode(&bytes).unwrap();
    assert_eq!(back, d);
}

#[test]
fn codec_round_trip_unicode_keys() {
    let d = doc(vec![
        ("clef", Value::Text("valeur accentuee".to_string())),
        ("emoji", Value::Text("snowman \u{2603} and beyond \u{1F680}".to_string())),
        ("", Value::Int64(0)),
    ]);
    let bytes = encode(&d);
    let back = decode(&bytes).unwrap();
    assert_eq!(back, d);
}

#[test]
fn codec_rejects_truncated() {
    let d = doc(vec![("kind", Value::Text("apples".to_string()))]);
    let mut bytes = encode(&d);
    bytes.pop();
    assert!(decode(&bytes).is_err());
    assert_eq!(decode(&Vec::new()), Err(CodecError::Truncated));
}

#[test]
fn codec_rejects_trailing_garbage() {
    let d = doc(vec![("kind", Value::Text("apples".to_string()))]);
    let mut bytes = encode(&d);
    bytes.push(0);
    assert_eq!(decode(&bytes), Err(CodecError::Malformed));
}

#[test]
fn codec_rejects_bad_tag() {
    // A one-field document whose value carries an unknown tag.
    let d = doc(vec![("k", Value::Null)]);
    let mut bytes = encode(&d);
    let n = bytes.len();
    bytes[n - 1] = 200;
    assert!(decode(&bytes).is_err());
}
