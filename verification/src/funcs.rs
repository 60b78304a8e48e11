use vstd::prelude::*;
use crate::value::{Document, SpecValue, Value};
use crate::codec::{dec_doc, decode, enc_doc, encode};
use crate::extract::{extract, spec_extract_doc};
use crate::patch::{apply_update, spec_apply_update};
use crate::query_translator::{SpecSqlValue, SqlValue};
use crate::sqlite::{blake3_digest, blake3_of, hex_encode, now_millis};
use vstd::slice::slice_to_vec;

verus! {

/// The lowercase hexadecimal digit for `n`.
pub open spec fn hex_digit(n: u8) -> char
    recommends
        n < 16,
{
    if n == 0 {
        '0'
    } else if n == 1 {
        '1'
    } else if n == 2 {
        '2'
    } else if n == 3 {
        '3'
    } else if n == 4 {
        '4'
    } else if n == 5 {
        '5'
    } else if n == 6 {
        '6'
    } else if n == 7 {
        '7'
    } else if n == 8 {
        '8'
    } else if n == 9 {
        '9'
    } else if n == 10 {
        'a'
    } else if n == 11 {
        'b'
    } else if n == 12 {
        'c'
    } else if n == 13 {
        'd'
    } else if n == 14 {
        'e'
    } else {
        'f'
    }
}

/// Two lowercase hexadecimal digits per byte, in order.
pub open spec fn spec_hex(b: Seq<u8>) -> Seq<char> {
    Seq::new(
        b.len() * 2,
        |i: int|
            if i % 2 == 0 {
                hex_digit(b[i / 2] / 16)
            } else {
                hex_digit(b[i / 2] % 16)
            },
    )
}

/// The content hash the store derives for a document blob: the blake3
/// digest written in hexadecimal.
pub fn content_hash_hex(blob: &[u8]) -> (r: String)
    ensures
        r@ == spec_hex(blake3_of(blob@)),
{
    let digest = blake3_digest(blob);
    hex_encode(&digest)
}

/// The scalar the extractor reports for a value: typed where the store can
/// compare it, null where it cannot.
pub open spec fn spec_sql_of_value(v: SpecValue) -> SpecSqlValue {
    match v {
        SpecValue::Null => SpecSqlValue::Null,
        SpecValue::Bool(b) => SpecSqlValue::Integer(
            if b {
                1
            } else {
                0
            },
        ),
        SpecValue::Int32(i) => SpecSqlValue::Integer(i as i64),
        SpecValue::Int64(i) => SpecSqlValue::Integer(i),
        SpecValue::Double(_) => SpecSqlValue::Null,
        SpecValue::Text(s) => SpecSqlValue::Text(s),
        SpecValue::Binary(b) => SpecSqlValue::Blob(b),
        SpecValue::Array(_) => SpecSqlValue::Null,
        SpecValue::Object(_) => SpecSqlValue::Null,
        SpecValue::DateTime(t) => SpecSqlValue::Integer(t),
    }
}

/// What `json_field(path, blob)` evaluates to: the addressed value of the
/// decoded document, or null on a corrupt blob or an absent path.
pub open spec fn spec_json_field_sql(bytes: Seq<u8>, path: Seq<char>) -> SpecSqlValue {
    match dec_doc(bytes) {
        None => SpecSqlValue::Null,
        Some(sd) => match spec_extract_doc(sd, path) {
            None => SpecSqlValue::Null,
            Some(v) => spec_sql_of_value(v),
        },
    }
}

/// The extractor as the store calls it: deterministic in `path` and `blob`
/// alone, which is what makes it sound to index on.
pub fn json_field_sql(path: &str, blob: &[u8]) -> (r: SqlValue)
    ensures
        r@ == spec_json_field_sql(blob@, path@),
{
    let bv = slice_to_vec(blob);
    match decode(&bv) {
        Err(_) => SqlValue::Null,
        Ok(d) => match extract(&d, path) {
            None => SqlValue::Null,
            Some(v) => match v {
                Value::Null => SqlValue::Null,
                Value::Bool(b) => SqlValue::Integer(
                    if *b {
                        1
                    } else {
                        0
                    },
                ),
                Value::Int32(i) => SqlValue::Integer(*i as i64),
                Value::Int64(i) => SqlValue::Integer(*i),
                Value::Double(_) => SqlValue::Null,
                Value::Text(s) => SqlValue::Text(s.clone()),
                Value::Binary(b) => {
                    let copied = slice_to_vec(b.as_slice());
                    SqlValue::Blob(copied)
                },
                Value::Array(_) => SqlValue::Null,
                Value::Object(_) => SqlValue::Null,
                Value::DateTime(t) => SqlValue::Integer(*t),
            },
        },
    }
}

/// What one patch application yields for one clock reading: decode both
/// blobs, apply the update, encode the result; nothing on a corrupt blob
/// or a rejected patch.
pub open spec fn spec_patch_blobs(orig: Option<Seq<u8>>, update: Seq<u8>, now: i64) -> Option<
    Seq<u8>,
> {
    let base = match orig {
        Some(b0) => dec_doc(b0),
        None => Some(Seq::<(Seq<char>, SpecValue)>::empty()),
    };
    match base {
        None => None,
        Some(base_doc) => match dec_doc(update) {
            None => None,
            Some(u) => match spec_apply_update(base_doc, u, orig is None, now) {
                Ok(d2) => Some(enc_doc(d2)),
                Err(_) => None,
            },
        },
    }
}

/// An optional byte slice seen as its contents.
pub open spec fn opt_bytes_model(o: Option<&[u8]>) -> Option<Seq<u8>> {
    match o {
        Some(b) => Some(b@),
        None => None,
    }
}

/// The patch application as the store calls it.  A missing original stands
/// for a fresh document being inserted.  The clock value that
/// `$currentDate` writes is the one thing not pinned: everything else about
/// the result is the patch engine's specification.
pub fn patch_blobs(original: Option<&[u8]>, update: &[u8]) -> (r: Result<Vec<u8>, String>)
    ensures
        dec_doc(update@) is None ==> r is Err,
        original matches Some(b0) && dec_doc(b0@) is None ==> r is Err,
        (forall|now: i64| #[trigger] spec_patch_blobs(opt_bytes_model(original), update@, now)
            is Some) ==> r is Ok,
        r matches Ok(out) ==> exists|now: i64| #[trigger] spec_patch_blobs(
            opt_bytes_model(original),
            update@,
            now,
        ) == Some(out@),
{
    let is_insert = original.is_none();
    let base_doc: Document;
    match original {
        Some(b0) => {
            let bv = slice_to_vec(b0);
            match decode(&bv) {
                Ok(d) => {
                    base_doc = d;
                },
                Err(_) => {
                    proof {
                        assert(spec_patch_blobs(opt_bytes_model(original), update@, 0) is None);
                    }
                    return Err(String::from_str("corrupt stored document"));
                },
            }
        },
        None => {
            base_doc = Document::new();
        },
    }
    let uv = slice_to_vec(update);
    let upd: Document;
    match decode(&uv) {
        Ok(d) => {
            upd = d;
        },
        Err(_) => {
            proof {
                assert(spec_patch_blobs(opt_bytes_model(original), update@, 0) is None);
            }
            return Err(String::from_str("corrupt update document"));
        },
    }
    let now = now_millis();
    match apply_update(&base_doc, &upd, is_insert, now) {
        Ok(d2) => {
            let out = encode(&d2);
            proof {
                assert(spec_patch_blobs(opt_bytes_model(original), update@, now) == Some(out@));
            }
            Ok(out)
        },
        Err(_) => {
            proof {
                assert(spec_patch_blobs(opt_bytes_model(original), update@, now) is None);
            }
            Err(String::from_str("patch rejected"))
        },
    }
}

} // verus!
