use vstd::prelude::*;
use crate::value::{
    Document,
    SpecDoc,
    SpecValue,
    Value,
    fields_model,
    group_value_model,
    seq_model,
};
use vstd::bytes::{
    spec_u32_from_le_bytes,
    spec_u32_to_le_bytes,
    spec_u64_from_le_bytes,
    spec_u64_to_le_bytes,
    u32_from_le_bytes,
    u32_to_le_bytes,
    u64_from_le_bytes,
    u64_to_le_bytes,
    lemma_auto_spec_u32_to_from_le_bytes,
    lemma_auto_spec_u64_to_from_le_bytes,
};
use vstd::utf8::{valid_utf8, decode_utf8, encode_utf8};
use vstd::string::StrSliceExecFns;

verus! {

/// Decoding failed: the input is not the encoding of any document.
#[derive(Clone, Copy, PartialEq, Eq, Structural, Debug)]
pub enum CodecError {
    /// The input ends before the structure it announces is complete.
    Truncated,
    /// A tag, flag, count or text run is not one the encoder can produce.
    Malformed,
}

pub const TAG_NULL: u8 = 0;

pub const TAG_BOOL: u8 = 1;

pub const TAG_INT32: u8 = 2;

pub const TAG_INT64: u8 = 3;

pub const TAG_DOUBLE: u8 = 4;

pub const TAG_TEXT: u8 = 5;

pub const TAG_BINARY: u8 = 6;

pub const TAG_ARRAY: u8 = 7;

pub const TAG_OBJECT: u8 = 8;

pub const TAG_DATETIME: u8 = 9;

/// Every length and count in the tree fits the 64-bit prefixes of the wire
/// format.  Every document held in memory is bounded, which `encode` proves
/// as it runs.
pub open spec fn bounded_value(sv: SpecValue) -> bool
    decreases sv,
{
    match sv {
        SpecValue::Text(s) => encode_utf8(s).len() <= u64::MAX,
        SpecValue::Binary(b) => b.len() <= u64::MAX,
        SpecValue::Array(items) => items.len() <= u64::MAX && bounded_values(items),
        SpecValue::Object(fields) => fields.len() <= u64::MAX && bounded_fields(fields),
        _ => true,
    }
}

pub open spec fn bounded_values(items: Seq<SpecValue>) -> bool
    decreases items,
{
    if items.len() == 0 {
        true
    } else {
        bounded_value(items[0]) && bounded_values(items.drop_first())
    }
}

pub open spec fn bounded_fields(fields: SpecDoc) -> bool
    decreases fields,
{
    if fields.len() == 0 {
        true
    } else {
        encode_utf8(fields[0].0).len() <= u64::MAX && bounded_value(fields[0].1)
            && bounded_fields(fields.drop_first())
    }
}

/// The encoding of one value: a tag byte, then a payload whose variable
/// parts are prefixed by 64-bit little-endian lengths.
pub open spec fn enc_value(sv: SpecValue) -> Seq<u8>
    decreases sv,
{
    match sv {
        SpecValue::Null => seq![TAG_NULL],
        SpecValue::Bool(b) => seq![TAG_BOOL, if b { 1u8 } else { 0u8 }],
        SpecValue::Int32(i) => seq![TAG_INT32] + spec_u32_to_le_bytes(i as u32),
        SpecValue::Int64(i) => seq![TAG_INT64] + spec_u64_to_le_bytes(i as u64),
        SpecValue::Double(bits) => seq![TAG_DOUBLE] + spec_u64_to_le_bytes(bits),
        SpecValue::Text(s) => seq![TAG_TEXT] + spec_u64_to_le_bytes(
            encode_utf8(s).len() as u64,
        ) + encode_utf8(s),
        SpecValue::Binary(b) => seq![TAG_BINARY] + spec_u64_to_le_bytes(b.len() as u64) + b,
        SpecValue::Array(items) => seq![TAG_ARRAY] + spec_u64_to_le_bytes(items.len() as u64)
            + enc_values(items),
        SpecValue::Object(fields) => seq![TAG_OBJECT] + spec_u64_to_le_bytes(fields.len() as u64)
            + enc_fields(fields),
        SpecValue::DateTime(t) => seq![TAG_DATETIME] + spec_u64_to_le_bytes(t as u64),
    }
}

/// The encodings of a list of values, concatenated.
pub open spec fn enc_values(items: Seq<SpecValue>) -> Seq<u8>
    decreases items,
{
    if items.len() == 0 {
        Seq::<u8>::empty()
    } else {
        enc_value(items[0]) + enc_values(items.drop_first())
    }
}

/// The encoding of one field: length-prefixed UTF-8 name, then the value.
pub open spec fn enc_field(f: (Seq<char>, SpecValue)) -> Seq<u8>
    decreases f,
{
    spec_u64_to_le_bytes(encode_utf8(f.0).len() as u64) + encode_utf8(f.0) + enc_value(f.1)
}

/// The encodings of a field list, concatenated.
pub open spec fn enc_fields(fields: SpecDoc) -> Seq<u8>
    decreases fields,
{
    if fields.len() == 0 {
        Seq::<u8>::empty()
    } else {
        enc_field(fields[0]) + enc_fields(fields.drop_first())
    }
}

/// The encoding of a whole document: a 64-bit field count, then the fields.
pub open spec fn enc_doc(fields: SpecDoc) -> Seq<u8> {
    spec_u64_to_le_bytes(fields.len() as u64) + enc_fields(fields)
}

/// What decoding one value from the front of `b` yields: the value and the
/// number of bytes it occupied, or nothing if `b` does not start with an
/// encoding.
pub open spec fn dec_value(b: Seq<u8>) -> Option<(SpecValue, int)>
    decreases b.len(), 0int,
{
    if b.len() < 1 {
        None
    } else if b[0] == TAG_NULL {
        Some((SpecValue::Null, 1))
    } else if b[0] == TAG_BOOL {
        if b.len() < 2 {
            None
        } else if b[1] == 1 {
            Some((SpecValue::Bool(true), 2))
        } else if b[1] == 0 {
            Some((SpecValue::Bool(false), 2))
        } else {
            None
        }
    } else if b[0] == TAG_INT32 {
        if b.len() < 5 {
            None
        } else {
            Some((SpecValue::Int32(spec_u32_from_le_bytes(b.subrange(1, 5)) as i32), 5))
        }
    } else if b[0] == TAG_INT64 {
        if b.len() < 9 {
            None
        } else {
            Some((SpecValue::Int64(spec_u64_from_le_bytes(b.subrange(1, 9)) as i64), 9))
        }
    } else if b[0] == TAG_DOUBLE {
        if b.len() < 9 {
            None
        } else {
            Some((SpecValue::Double(spec_u64_from_le_bytes(b.subrange(1, 9))), 9))
        }
    } else if b[0] == TAG_DATETIME {
        if b.len() < 9 {
            None
        } else {
            Some((SpecValue::DateTime(spec_u64_from_le_bytes(b.subrange(1, 9)) as i64), 9))
        }
    } else if b[0] == TAG_TEXT {
        if b.len() < 9 {
            None
        } else {
            let ln = spec_u64_from_le_bytes(b.subrange(1, 9)) as int;
            if 9 + ln > b.len() {
                None
            } else if valid_utf8(b.subrange(9, 9 + ln)) {
                Some((SpecValue::Text(decode_utf8(b.subrange(9, 9 + ln))), 9 + ln))
            } else {
                None
            }
        }
    } else if b[0] == TAG_BINARY {
        if b.len() < 9 {
            None
        } else {
            let ln = spec_u64_from_le_bytes(b.subrange(1, 9)) as int;
            if 9 + ln > b.len() {
                None
            } else {
                Some((SpecValue::Binary(b.subrange(9, 9 + ln)), 9 + ln))
            }
        }
    } else if b[0] == TAG_ARRAY {
        if b.len() < 9 {
            None
        } else {
            let cnt = spec_u64_from_le_bytes(b.subrange(1, 9)) as int;
            match dec_values(b.skip(9), cnt) {
                Some((items, used)) => Some((SpecValue::Array(items), 9 + used)),
                None => None,
            }
        }
    } else if b[0] == TAG_OBJECT {
        if b.len() < 9 {
            None
        } else {
            let cnt = spec_u64_from_le_bytes(b.subrange(1, 9)) as int;
            match dec_fields(b.skip(9), cnt) {
                Some((fields, used)) => Some((SpecValue::Object(fields), 9 + used)),
                None => None,
            }
        }
    } else {
        None
    }
}

/// Decoding of `cnt` consecutive values from the front of `b`.
pub open spec fn dec_values(b: Seq<u8>, cnt: int) -> Option<(Seq<SpecValue>, int)>
    decreases b.len(), cnt,
{
    if cnt <= 0 {
        Some((Seq::<SpecValue>::empty(), 0))
    } else {
        match dec_value(b) {
            None => None,
            Some((v, n)) => if n < 1 || n > b.len() {
                None
            } else {
                match dec_values(b.skip(n), cnt - 1) {
                    None => None,
                    Some((vs, m)) => Some((seq![v] + vs, n + m)),
                }
            },
        }
    }
}

/// Decoding of `cnt` consecutive fields from the front of `b`.
pub open spec fn dec_fields(b: Seq<u8>, cnt: int) -> Option<(SpecDoc, int)>
    decreases b.len(), cnt,
{
    if cnt <= 0 {
        Some((Seq::<(Seq<char>, SpecValue)>::empty(), 0))
    } else if b.len() < 8 {
        None
    } else {
        let klen = spec_u64_from_le_bytes(b.subrange(0, 8)) as int;
        if 8 + klen > b.len() {
            None
        } else if !valid_utf8(b.subrange(8, 8 + klen)) {
            None
        } else {
            let key = decode_utf8(b.subrange(8, 8 + klen));
            match dec_value(b.skip(8 + klen)) {
                None => None,
                Some((v, n)) => if n < 1 || n > b.len() - 8 - klen {
                    None
                } else {
                    match dec_fields(b.skip(8 + klen + n), cnt - 1) {
                        None => None,
                        Some((fs, m)) => Some((seq![(key, v)] + fs, 8 + klen + n + m)),
                    }
                },
            }
        }
    }
}

/// What decoding a whole byte string yields: the document whose encoding is
/// exactly `b`, if there is one.
pub open spec fn dec_doc(b: Seq<u8>) -> Option<SpecDoc> {
    if b.len() < 8 {
        None
    } else {
        let cnt = spec_u64_from_le_bytes(b.subrange(0, 8)) as int;
        match dec_fields(b.skip(8), cnt) {
            None => None,
            Some((fields, used)) => if 8 + used == b.len() {
                Some(fields)
            } else {
                None
            },
        }
    }
}

/// Append `b` to `out`.
fn append_bytes(out: &mut Vec<u8>, b: &[u8])
    ensures
        final(out)@ == old(out)@ + b@,
{
    let n = b.len();
    for i in 0..n
        invariant
            n == b@.len(),
            out@ =~= old(out)@ + b@.subrange(0, i as int),
    {
        out.push(b[i]);
    }
    proof {
        assert(old(out)@ + b@.subrange(0, n as int) =~= old(out)@ + b@);
    }
}

/// Relies on std's `String::from_utf8`: it returns the decoded string when
/// the bytes are valid UTF-8, in the sense vstd's UTF-8 model gives those
/// words, and fails exactly otherwise.
#[verifier::external_body]
fn bytes_to_string(b: Vec<u8>) -> (r: Option<String>)
    ensures
        match r {
            Some(s) => valid_utf8(b@) && s@ == decode_utf8(b@),
            None => !valid_utf8(b@),
        },
{
    String::from_utf8(b).ok()
}

/// Append the encoding of `v` to `out`.
fn encode_value_into(v: &Value, out: &mut Vec<u8>)
    ensures
        final(out)@ == old(out)@ + enc_value(v@),
        bounded_value(v@),
    decreases v, 0int,
{
    match v {
        Value::Null => {
            out.push(TAG_NULL);
            assert(out@ =~= old(out)@ + enc_value(v@));
        },
        Value::Bool(b) => {
            out.push(TAG_BOOL);
            out.push(if *b {
                1u8
            } else {
                0u8
            });
            assert(out@ =~= old(out)@ + enc_value(v@));
        },
        Value::Int32(i) => {
            out.push(TAG_INT32);
            let bs = u32_to_le_bytes(*i as u32);
            append_bytes(out, bs.as_slice());
            assert(out@ =~= old(out)@ + enc_value(v@));
        },
        Value::Int64(i) => {
            out.push(TAG_INT64);
            let bs = u64_to_le_bytes(*i as u64);
            append_bytes(out, bs.as_slice());
            assert(out@ =~= old(out)@ + enc_value(v@));
        },
        Value::Double(bits) => {
            out.push(TAG_DOUBLE);
            let bs = u64_to_le_bytes(*bits);
            append_bytes(out, bs.as_slice());
            assert(out@ =~= old(out)@ + enc_value(v@));
        },
        Value::DateTime(t) => {
            out.push(TAG_DATETIME);
            let bs = u64_to_le_bytes(*t as u64);
            append_bytes(out, bs.as_slice());
            assert(out@ =~= old(out)@ + enc_value(v@));
        },
        Value::Text(s) => {
            out.push(TAG_TEXT);
            let utf8 = s.as_str().as_bytes_vec();
            let ln = u64_to_le_bytes(utf8.len() as u64);
            append_bytes(out, ln.as_slice());
            append_bytes(out, utf8.as_slice());
            assert(out@ =~= old(out)@ + enc_value(v@));
        },
        Value::Binary(b) => {
            out.push(TAG_BINARY);
            let ln = u64_to_le_bytes(b.len() as u64);
            append_bytes(out, ln.as_slice());
            append_bytes(out, b.as_slice());
            assert(out@ =~= old(out)@ + enc_value(v@));
        },
        Value::Array(items) => {
            out.push(TAG_ARRAY);
            let ln = u64_to_le_bytes(items.len() as u64);
            append_bytes(out, ln.as_slice());
            encode_values_into(items, 0, out);
            proof {
                broadcast use group_value_model;

                assert(seq_model(items@).len() == items@.len());
                assert(seq_model(items@).skip(0) =~= seq_model(items@));
                assert(out@ =~= old(out)@ + enc_value(v@));
            }
        },
        Value::Object(d) => {
            out.push(TAG_OBJECT);
            let ln = u64_to_le_bytes(d.fields.len() as u64);
            append_bytes(out, ln.as_slice());
            encode_fields_into(&d.fields, 0, out);
            proof {
                broadcast use group_value_model;

                assert(fields_model(d.fields@).len() == d.fields@.len());
                assert(fields_model(d.fields@).skip(0) =~= fields_model(d.fields@));
                assert(out@ =~= old(out)@ + enc_value(v@));
            }
        },
    }
}

/// Append the encodings of `items[i..]` to `out`.
fn encode_values_into(items: &Vec<Value>, i: usize, out: &mut Vec<u8>)
    requires
        i <= items@.len(),
    ensures
        final(out)@ == old(out)@ + enc_values(seq_model(items@).skip(i as int)),
        bounded_values(seq_model(items@).skip(i as int)),
    decreases items, items@.len() - i,
{
    broadcast use group_value_model;

    if i == items.len() {
        assert(out@ =~= old(out)@ + enc_values(seq_model(items@).skip(i as int)));
    } else {
        encode_value_into(&items[i], out);
        encode_values_into(items, i + 1, out);
        proof {
            let m = seq_model(items@);
            assert(m.skip(i as int)[0] == m[i as int]);
            assert(m.skip(i as int).drop_first() =~= m.skip(i as int + 1));
            assert(out@ =~= old(out)@ + enc_values(m.skip(i as int)));
        }
    }
}

/// Append the encodings of `fields[i..]` to `out`.
fn encode_fields_into(fields: &Vec<(String, Value)>, i: usize, out: &mut Vec<u8>)
    requires
        i <= fields@.len(),
    ensures
        final(out)@ == old(out)@ + enc_fields(fields_model(fields@).skip(i as int)),
        bounded_fields(fields_model(fields@).skip(i as int)),
    decreases fields, fields@.len() - i,
{
    broadcast use group_value_model;

    if i == fields.len() {
        assert(out@ =~= old(out)@ + enc_fields(fields_model(fields@).skip(i as int)));
    } else {
        proof {
            assert(decreases_to!(*fields => fields@[i as int]));
            assert(decreases_to!(fields@[i as int] => fields@[i as int].1));
        }
        let utf8 = fields[i].0.as_str().as_bytes_vec();
        let ln = u64_to_le_bytes(utf8.len() as u64);
        append_bytes(out, ln.as_slice());
        append_bytes(out, utf8.as_slice());
        encode_value_into(&fields[i].1, out);
        encode_fields_into(fields, i + 1, out);
        proof {
            let m = fields_model(fields@);
            assert(m.skip(i as int)[0] == m[i as int]);
            assert(m.skip(i as int).drop_first() =~= m.skip(i as int + 1));
            assert(m[i as int] == (fields@[i as int].0@, crate::value::value_model(
                fields@[i as int].1,
            )));
            assert(utf8@ == encode_utf8(fields@[i as int].0@));
            assert(ln@ == spec_u64_to_le_bytes(encode_utf8(m[i as int].0).len() as u64));
            assert(enc_field(m[i as int]) =~= ln@ + utf8@ + enc_value(m[i as int].1));
            assert(out@ =~= old(out)@ + enc_fields(m.skip(i as int)));
        }
    }
}

/// Serialize a document.  The result is exactly the encoding of the
/// document's model, and every document that exists in memory is bounded.
pub fn encode(d: &Document) -> (r: Vec<u8>)
    ensures
        r@ == enc_doc(d@),
        bounded_fields(d@),
        d@.len() <= u64::MAX,
{
    broadcast use group_value_model;

    let mut out: Vec<u8> = Vec::new();
    let ln = u64_to_le_bytes(d.fields.len() as u64);
    append_bytes(&mut out, ln.as_slice());
    encode_fields_into(&d.fields, 0, &mut out);
    proof {
        assert(fields_model(d.fields@).skip(0) =~= fields_model(d.fields@));
        assert(out@ =~= enc_doc(d@));
    }
    out
}

/// Read a 64-bit little-endian number out of `b` at `pos`.
fn read_u64(b: &Vec<u8>, pos: usize) -> (x: u64)
    requires
        pos + 8 <= b@.len(),
    ensures
        x == spec_u64_from_le_bytes(b@.subrange(pos as int, pos as int + 8)),
{
    proof {
        vstd::std_specs::vec::axiom_spec_len(b);
    }
    let s = b.as_slice();
    u64_from_le_bytes(&s[pos..pos + 8])
}

/// Read a 32-bit little-endian number out of `b` at `pos`.
fn read_u32(b: &Vec<u8>, pos: usize) -> (x: u32)
    requires
        pos + 4 <= b@.len(),
    ensures
        x == spec_u32_from_le_bytes(b@.subrange(pos as int, pos as int + 4)),
{
    proof {
        vstd::std_specs::vec::axiom_spec_len(b);
    }
    let s = b.as_slice();
    u32_from_le_bytes(&s[pos..pos + 4])
}

/// Decode one value starting at `pos`; on success return it and the position
/// just past it.  The result is exactly what the specification decoder says.
fn decode_value_at(b: &Vec<u8>, pos: usize) -> (r: Result<(Value, usize), CodecError>)
    requires
        pos <= b@.len(),
    ensures
        match r {
            Ok(p) => pos < p.1 <= b@.len() && dec_value(b@.skip(pos as int)) == Some(
                (p.0@, p.1 - pos),
            ),
            Err(_) => dec_value(b@.skip(pos as int)) is None,
        },
    decreases b@.len() - pos, 0int,
{
    let ghost s = b@.skip(pos as int);
    if pos >= b.len() {
        return Err(CodecError::Truncated);
    }
    let tag = b[pos];
    proof {
        assert(s[0] == tag);
    }
    if tag == TAG_NULL {
        Ok((Value::Null, pos + 1))
    } else if tag == TAG_BOOL {
        if b.len() - pos < 2 {
            return Err(CodecError::Truncated);
        }
        let byte = b[pos + 1];
        proof {
            assert(s[1] == byte);
        }
        if byte == 1 {
            Ok((Value::Bool(true), pos + 2))
        } else if byte == 0 {
            Ok((Value::Bool(false), pos + 2))
        } else {
            Err(CodecError::Malformed)
        }
    } else if tag == TAG_INT32 {
        if b.len() - pos < 5 {
            return Err(CodecError::Truncated);
        }
        let x = read_u32(b, pos + 1);
        proof {
            assert(b@.subrange(pos as int + 1, pos as int + 5) =~= s.subrange(1, 5));
        }
        Ok((Value::Int32(x as i32), pos + 5))
    } else if tag == TAG_INT64 {
        if b.len() - pos < 9 {
            return Err(CodecError::Truncated);
        }
        let x = read_u64(b, pos + 1);
        proof {
            assert(b@.subrange(pos as int + 1, pos as int + 9) =~= s.subrange(1, 9));
        }
        Ok((Value::Int64(x as i64), pos + 9))
    } else if tag == TAG_DOUBLE {
        if b.len() - pos < 9 {
            return Err(CodecError::Truncated);
        }
        let x = read_u64(b, pos + 1);
        proof {
            assert(b@.subrange(pos as int + 1, pos as int + 9) =~= s.subrange(1, 9));
        }
        Ok((Value::Double(x), pos + 9))
    } else if tag == TAG_DATETIME {
        if b.len() - pos < 9 {
            return Err(CodecError::Truncated);
        }
        let x = read_u64(b, pos + 1);
        proof {
            assert(b@.subrange(pos as int + 1, pos as int + 9) =~= s.subrange(1, 9));
        }
        Ok((Value::DateTime(x as i64), pos + 9))
    } else if tag == TAG_TEXT {
        if b.len() - pos < 9 {
            return Err(CodecError::Truncated);
        }
        let ln64 = read_u64(b, pos + 1);
        proof {
            assert(b@.subrange(pos as int + 1, pos as int + 9) =~= s.subrange(1, 9));
        }
        if ln64 > (b.len() - pos - 9) as u64 {
            return Err(CodecError::Truncated);
        }
        let ln = ln64 as usize;
        let mut sb: Vec<u8> = Vec::new();
        append_bytes(&mut sb, &b.as_slice()[pos + 9..pos + 9 + ln]);
        proof {
            assert(sb@ =~= s.subrange(9, 9 + ln64 as int));
        }
        match bytes_to_string(sb) {
            Some(st) => Ok((Value::Text(st), pos + 9 + ln)),
            None => Err(CodecError::Malformed),
        }
    } else if tag == TAG_BINARY {
        if b.len() - pos < 9 {
            return Err(CodecError::Truncated);
        }
        let ln64 = read_u64(b, pos + 1);
        proof {
            assert(b@.subrange(pos as int + 1, pos as int + 9) =~= s.subrange(1, 9));
        }
        if ln64 > (b.len() - pos - 9) as u64 {
            return Err(CodecError::Truncated);
        }
        let ln = ln64 as usize;
        let mut sb: Vec<u8> = Vec::new();
        append_bytes(&mut sb, &b.as_slice()[pos + 9..pos + 9 + ln]);
        proof {
            assert(sb@ =~= s.subrange(9, 9 + ln64 as int));
        }
        Ok((Value::Binary(sb), pos + 9 + ln))
    } else if tag == TAG_ARRAY {
        if b.len() - pos < 9 {
            return Err(CodecError::Truncated);
        }
        let cnt = read_u64(b, pos + 1);
        proof {
            assert(b@.subrange(pos as int + 1, pos as int + 9) =~= s.subrange(1, 9));
            assert(b@.skip(pos as int + 9) =~= s.skip(9));
        }
        match decode_values_at(b, pos + 9, cnt) {
            Ok((items, end)) => Ok((Value::Array(items), end)),
            Err(e) => Err(e),
        }
    } else if tag == TAG_OBJECT {
        if b.len() - pos < 9 {
            return Err(CodecError::Truncated);
        }
        let cnt = read_u64(b, pos + 1);
        proof {
            assert(b@.subrange(pos as int + 1, pos as int + 9) =~= s.subrange(1, 9));
            assert(b@.skip(pos as int + 9) =~= s.skip(9));
        }
        match decode_fields_at(b, pos + 9, cnt) {
            Ok((fields, end)) => Ok((Value::Object(Document { fields }), end)),
            Err(e) => Err(e),
        }
    } else {
        Err(CodecError::Malformed)
    }
}

/// Decode `cnt` consecutive values starting at `pos`.
fn decode_values_at(b: &Vec<u8>, pos: usize, cnt: u64) -> (r: Result<
    (Vec<Value>, usize),
    CodecError,
>)
    requires
        pos <= b@.len(),
    ensures
        match r {
            Ok(p) => pos <= p.1 <= b@.len() && dec_values(b@.skip(pos as int), cnt as int) == Some(
                (seq_model(p.0@), p.1 - pos),
            ),
            Err(_) => dec_values(b@.skip(pos as int), cnt as int) is None,
        },
    decreases b@.len() - pos, cnt as int,
{
    broadcast use group_value_model;

    if cnt == 0 {
        let items: Vec<Value> = Vec::new();
        proof {
            assert(seq_model(items@) =~= Seq::<SpecValue>::empty());
        }
        return Ok((items, pos));
    }
    match decode_value_at(b, pos) {
        Err(e) => Err(e),
        Ok((v, np)) => {
            proof {
                assert(b@.skip(np as int) =~= b@.skip(pos as int).skip(np - pos));
            }
            match decode_values_at(b, np, cnt - 1) {
                Err(e) => Err(e),
                Ok((mut items, end)) => {
                    let ghost tail = items@;
                    items.insert(0, v);
                    proof {
                        assert(items@ =~= seq![v].add(tail));
                        assert(seq_model(items@) =~= seq![v@] + seq_model(tail));
                    }
                    Ok((items, end))
                },
            }
        },
    }
}

/// Decode `cnt` consecutive fields starting at `pos`.
fn decode_fields_at(b: &Vec<u8>, pos: usize, cnt: u64) -> (r: Result<
    (Vec<(String, Value)>, usize),
    CodecError,
>)
    requires
        pos <= b@.len(),
    ensures
        match r {
            Ok(p) => pos <= p.1 <= b@.len() && dec_fields(b@.skip(pos as int), cnt as int) == Some(
                (fields_model(p.0@), p.1 - pos),
            ),
            Err(_) => dec_fields(b@.skip(pos as int), cnt as int) is None,
        },
    decreases b@.len() - pos, cnt as int,
{
    broadcast use group_value_model;

    let ghost s = b@.skip(pos as int);
    if cnt == 0 {
        let fields: Vec<(String, Value)> = Vec::new();
        proof {
            assert(fields_model(fields@) =~= Seq::<(Seq<char>, SpecValue)>::empty());
        }
        return Ok((fields, pos));
    }
    if b.len() - pos < 8 {
        return Err(CodecError::Truncated);
    }
    let klen64 = read_u64(b, pos);
    proof {
        assert(b@.subrange(pos as int, pos as int + 8) =~= s.subrange(0, 8));
    }
    if klen64 > (b.len() - pos - 8) as u64 {
        return Err(CodecError::Truncated);
    }
    let klen = klen64 as usize;
    let mut kb: Vec<u8> = Vec::new();
    append_bytes(&mut kb, &b.as_slice()[pos + 8..pos + 8 + klen]);
    proof {
        assert(kb@ =~= s.subrange(8, 8 + klen64 as int));
    }
    match bytes_to_string(kb) {
        None => Err(CodecError::Malformed),
        Some(key) => {
            proof {
                assert(b@.skip(pos as int + 8 + klen as int) =~= s.skip(8 + klen as int));
            }
            match decode_value_at(b, pos + 8 + klen) {
                Err(e) => Err(e),
                Ok((v, np)) => {
                    proof {
                        assert(b@.skip(np as int) =~= s.skip(np - pos));
                    }
                    match decode_fields_at(b, np, cnt - 1) {
                        Err(e) => Err(e),
                        Ok((mut fields, end)) => {
                            let ghost tail = fields@;
                            let ghost gkey = key@;
                            fields.insert(0, (key, v));
                            proof {
                                assert(fields_model(fields@) =~= seq![(gkey, v@)] + fields_model(
                                    tail,
                                ));
                            }
                            Ok((fields, end))
                        },
                    }
                },
            }
        },
    }
}

/// Deserialize a document.  Succeeds exactly on the byte strings the
/// specification decoder accepts; `lemma_codec_round_trip` shows those
/// include every encoded document, and `lemma_codec_sound` that they
/// include nothing else.
pub fn decode(b: &Vec<u8>) -> (r: Result<Document, CodecError>)
    ensures
        match r {
            Ok(d) => dec_doc(b@) == Some(d@),
            Err(_) => dec_doc(b@) is None,
        },
{
    if b.len() < 8 {
        return Err(CodecError::Truncated);
    }
    let cnt = read_u64(b, 0);
    proof {
        assert(b@.subrange(0, 8) =~= b@.subrange(0int, 0int + 8));
    }
    match decode_fields_at(b, 8, cnt) {
        Err(e) => Err(e),
        Ok((fields, end)) => {
            if end == b.len() {
                Ok(Document { fields })
            } else {
                Err(CodecError::Malformed)
            }
        },
    }
}

/// Every value's encoding starts with its tag and is never empty.
proof fn lemma_enc_value_len(sv: SpecValue)
    ensures
        enc_value(sv).len() >= 1,
{
    match sv {
        SpecValue::Null => {},
        SpecValue::Bool(_) => {},
        SpecValue::Int32(_) => {},
        SpecValue::Int64(_) => {},
        SpecValue::Double(_) => {},
        SpecValue::Text(_) => {},
        SpecValue::Binary(_) => {},
        SpecValue::Array(_) => {},
        SpecValue::Object(_) => {},
        SpecValue::DateTime(_) => {},
    }
}

/// Decoding inverts encoding for one value, whatever follows it.
pub proof fn lemma_dec_enc_value(sv: SpecValue, rest: Seq<u8>)
    requires
        bounded_value(sv),
    ensures
        dec_value(enc_value(sv) + rest) == Some((sv, enc_value(sv).len() as int)),
    decreases sv, 0int,
{
    lemma_auto_spec_u64_to_from_le_bytes();
    lemma_auto_spec_u32_to_from_le_bytes();
    let b = enc_value(sv) + rest;
    match sv {
        SpecValue::Null => {},
        SpecValue::Bool(v) => {},
        SpecValue::Int32(i) => {
            assert(b.subrange(1, 5) =~= spec_u32_to_le_bytes(i as u32));
            assert((i as u32) as i32 == i) by (bit_vector);
        },
        SpecValue::Int64(i) => {
            assert(b.subrange(1, 9) =~= spec_u64_to_le_bytes(i as u64));
            assert((i as u64) as i64 == i) by (bit_vector);
        },
        SpecValue::Double(bits) => {
            assert(b.subrange(1, 9) =~= spec_u64_to_le_bytes(bits));
        },
        SpecValue::DateTime(t) => {
            assert(b.subrange(1, 9) =~= spec_u64_to_le_bytes(t as u64));
            assert((t as u64) as i64 == t) by (bit_vector);
        },
        SpecValue::Text(s) => {
            broadcast use vstd::utf8::encode_utf8_valid_utf8, vstd::utf8::encode_utf8_decode_utf8;

            let u = encode_utf8(s);
            assert(b.subrange(1, 9) =~= spec_u64_to_le_bytes(u.len() as u64));
            assert(b.subrange(9, 9 + u.len() as int) =~= u);
        },
        SpecValue::Binary(bs) => {
            assert(b.subrange(1, 9) =~= spec_u64_to_le_bytes(bs.len() as u64));
            assert(b.subrange(9, 9 + bs.len() as int) =~= bs);
        },
        SpecValue::Array(items) => {
            assert(b.subrange(1, 9) =~= spec_u64_to_le_bytes(items.len() as u64));
            assert(b.skip(9) =~= enc_values(items) + rest);
            lemma_dec_enc_values(items, rest);
        },
        SpecValue::Object(fields) => {
            assert(b.subrange(1, 9) =~= spec_u64_to_le_bytes(fields.len() as u64));
            assert(b.skip(9) =~= enc_fields(fields) + rest);
            lemma_dec_enc_fields(fields, rest);
        },
    }
}

/// Decoding inverts encoding for a list of values.
pub proof fn lemma_dec_enc_values(items: Seq<SpecValue>, rest: Seq<u8>)
    requires
        bounded_values(items),
    ensures
        dec_values(enc_values(items) + rest, items.len() as int) == Some(
            (items, enc_values(items).len() as int),
        ),
    decreases items, 0int,
{
    if items.len() == 0 {
        assert(enc_values(items) + rest =~= rest);
        assert(items =~= Seq::<SpecValue>::empty());
    } else {
        let b = enc_values(items) + rest;
        let e0 = enc_value(items[0]);
        let tail_rest = enc_values(items.drop_first()) + rest;
        assert(b =~= e0 + tail_rest);
        lemma_dec_enc_value(items[0], tail_rest);
        lemma_enc_value_len(items[0]);
        assert(b.skip(e0.len() as int) =~= tail_rest);
        lemma_dec_enc_values(items.drop_first(), rest);
        assert(seq![items[0]] + items.drop_first() =~= items);
    }
}

/// Decoding inverts encoding for a field list.
pub proof fn lemma_dec_enc_fields(fields: SpecDoc, rest: Seq<u8>)
    requires
        bounded_fields(fields),
    ensures
        dec_fields(enc_fields(fields) + rest, fields.len() as int) == Some(
            (fields, enc_fields(fields).len() as int),
        ),
    decreases fields, 0int,
{
    lemma_auto_spec_u64_to_from_le_bytes();
    if fields.len() == 0 {
        assert(enc_fields(fields) + rest =~= rest);
        assert(fields =~= Seq::<(Seq<char>, SpecValue)>::empty());
    } else {
        broadcast use vstd::utf8::encode_utf8_valid_utf8, vstd::utf8::encode_utf8_decode_utf8;

        let b = enc_fields(fields) + rest;
        let f0 = fields[0];
        let u = encode_utf8(f0.0);
        let e0 = enc_value(f0.1);
        let tail_rest = enc_fields(fields.drop_first()) + rest;
        assert(enc_fields(fields) == enc_field(f0) + enc_fields(fields.drop_first()));
        assert(enc_field(f0) == spec_u64_to_le_bytes(u.len() as u64) + u + e0);
        assert(b =~= spec_u64_to_le_bytes(u.len() as u64) + u + e0 + tail_rest);
        assert(b.subrange(0, 8) =~= spec_u64_to_le_bytes(u.len() as u64));
        assert(b.subrange(8, 8 + u.len() as int) =~= u);
        assert(b.skip(8 + u.len() as int) =~= e0 + tail_rest);
        lemma_dec_enc_value(f0.1, tail_rest);
        lemma_enc_value_len(f0.1);
        assert((e0 + tail_rest).skip(e0.len() as int) =~= tail_rest);
        assert(b.skip(8 + u.len() as int + e0.len() as int) =~= tail_rest);
        lemma_dec_enc_fields(fields.drop_first(), rest);
        assert(seq![(f0.0, f0.1)] + fields.drop_first() =~= fields);
    }
}

/// Decoding accepts only encodings: whatever one value the decoder reads,
/// the bytes it consumed are exactly that value's encoding.
pub proof fn lemma_dec_value_sound(b: Seq<u8>)
    ensures
        dec_value(b) matches Some(p) ==> 1 <= p.1 <= b.len() && enc_value(p.0) == b.subrange(
            0,
            p.1,
        ),
    decreases b.len(), 0int,
{
    lemma_auto_spec_u64_to_from_le_bytes();
    lemma_auto_spec_u32_to_from_le_bytes();
    broadcast use vstd::utf8::decode_utf8_encode_utf8;

    if b.len() < 1 {
        return ;
    }
    if b[0] == TAG_NULL {
        assert(enc_value(SpecValue::Null) =~= b.subrange(0, 1));
    } else if b[0] == TAG_BOOL {
        if b.len() >= 2 && (b[1] == 1 || b[1] == 0) {
            let v = SpecValue::Bool(b[1] == 1);
            assert(enc_value(v) =~= b.subrange(0, 2));
        }
    } else if b[0] == TAG_INT32 {
        if b.len() >= 5 {
            let x = spec_u32_from_le_bytes(b.subrange(1, 5));
            assert((x as i32) as u32 == x) by (bit_vector);
            assert(enc_value(SpecValue::Int32(x as i32)) =~= b.subrange(0, 5));
        }
    } else if b[0] == TAG_INT64 {
        if b.len() >= 9 {
            let x = spec_u64_from_le_bytes(b.subrange(1, 9));
            assert((x as i64) as u64 == x) by (bit_vector);
            assert(enc_value(SpecValue::Int64(x as i64)) =~= b.subrange(0, 9));
        }
    } else if b[0] == TAG_DOUBLE {
        if b.len() >= 9 {
            assert(enc_value(SpecValue::Double(spec_u64_from_le_bytes(b.subrange(1, 9)))) =~= b
                .subrange(0, 9));
        }
    } else if b[0] == TAG_DATETIME {
        if b.len() >= 9 {
            let x = spec_u64_from_le_bytes(b.subrange(1, 9));
            assert((x as i64) as u64 == x) by (bit_vector);
            assert(enc_value(SpecValue::DateTime(x as i64)) =~= b.subrange(0, 9));
        }
    } else if b[0] == TAG_TEXT {
        if b.len() >= 9 {
            let ln = spec_u64_from_le_bytes(b.subrange(1, 9)) as int;
            if 9 + ln <= b.len() && valid_utf8(b.subrange(9, 9 + ln)) {
                let seg = b.subrange(9, 9 + ln);
                assert(encode_utf8(decode_utf8(seg)) == seg);
                assert(enc_value(SpecValue::Text(decode_utf8(seg))) =~= b.subrange(0, 9 + ln));
            }
        }
    } else if b[0] == TAG_BINARY {
        if b.len() >= 9 {
            let ln = spec_u64_from_le_bytes(b.subrange(1, 9)) as int;
            if 9 + ln <= b.len() {
                assert(enc_value(SpecValue::Binary(b.subrange(9, 9 + ln))) =~= b.subrange(
                    0,
                    9 + ln,
                ));
            }
        }
    } else if b[0] == TAG_ARRAY {
        if b.len() >= 9 {
            let cnt = spec_u64_from_le_bytes(b.subrange(1, 9)) as int;
            lemma_dec_values_sound(b.skip(9), cnt);
            match dec_values(b.skip(9), cnt) {
                Some((items, used)) => {
                    assert(enc_values(items) == b.skip(9).subrange(0, used));
                    assert(b.skip(9).subrange(0, used) =~= b.subrange(9, 9 + used));
                    assert(enc_value(SpecValue::Array(items)) =~= b.subrange(0, 9 + used));
                },
                None => {},
            }
        }
    } else if b[0] == TAG_OBJECT {
        if b.len() >= 9 {
            let cnt = spec_u64_from_le_bytes(b.subrange(1, 9)) as int;
            lemma_dec_fields_sound(b.skip(9), cnt);
            match dec_fields(b.skip(9), cnt) {
                Some((fields, used)) => {
                    assert(enc_fields(fields) == b.skip(9).subrange(0, used));
                    assert(b.skip(9).subrange(0, used) =~= b.subrange(9, 9 + used));
                    assert(enc_value(SpecValue::Object(fields)) =~= b.subrange(0, 9 + used));
                },
                None => {},
            }
        }
    }
}

/// Decoding a value list accepts only concatenated encodings, and yields
/// exactly the announced count of values.
pub proof fn lemma_dec_values_sound(b: Seq<u8>, cnt: int)
    ensures
        dec_values(b, cnt) matches Some(p) ==> 0 <= p.1 <= b.len() && enc_values(p.0) == b
            .subrange(0, p.1) && p.0.len() == (
        if cnt <= 0 {
            0
        } else {
            cnt
        }),
    decreases b.len(), cnt,
{
    if cnt <= 0 {
        assert(enc_values(Seq::<SpecValue>::empty()) =~= b.subrange(0, 0));
        return ;
    }
    lemma_dec_value_sound(b);
    match dec_value(b) {
        None => {},
        Some((v, n)) => {
            if 1 <= n <= b.len() {
                lemma_dec_values_sound(b.skip(n), cnt - 1);
                match dec_values(b.skip(n), cnt - 1) {
                    None => {},
                    Some((vs, m)) => {
                        assert(seq![v] + vs =~= seq![v].add(vs));
                        assert((seq![v] + vs).drop_first() =~= vs);
                        assert((seq![v] + vs)[0] == v);
                        assert(b.skip(n).subrange(0, m) =~= b.subrange(n, n + m));
                        assert(enc_values(seq![v] + vs) =~= b.subrange(0, n + m));
                    },
                }
            }
        },
    }
}

/// Decoding a field list accepts only concatenated field encodings, and
/// yields exactly the announced count of fields.
pub proof fn lemma_dec_fields_sound(b: Seq<u8>, cnt: int)
    ensures
        dec_fields(b, cnt) matches Some(p) ==> 0 <= p.1 <= b.len() && enc_fields(p.0) == b
            .subrange(0, p.1) && p.0.len() == (
        if cnt <= 0 {
            0
        } else {
            cnt
        }),
    decreases b.len(), cnt,
{
    lemma_auto_spec_u64_to_from_le_bytes();
    broadcast use vstd::utf8::decode_utf8_encode_utf8;

    if cnt <= 0 {
        assert(enc_fields(Seq::<(Seq<char>, SpecValue)>::empty()) =~= b.subrange(0, 0));
        return ;
    }
    if b.len() < 8 {
        return ;
    }
    let klen = spec_u64_from_le_bytes(b.subrange(0, 8)) as int;
    if 8 + klen > b.len() || !valid_utf8(b.subrange(8, 8 + klen)) {
        return ;
    }
    let kb = b.subrange(8, 8 + klen);
    let key = decode_utf8(kb);
    assert(encode_utf8(key) == kb);
    lemma_dec_value_sound(b.skip(8 + klen));
    match dec_value(b.skip(8 + klen)) {
        None => {},
        Some((v, n)) => {
            if 1 <= n <= b.len() - 8 - klen {
                lemma_dec_fields_sound(b.skip(8 + klen + n), cnt - 1);
                match dec_fields(b.skip(8 + klen + n), cnt - 1) {
                    None => {},
                    Some((fs, m)) => {
                        let all = seq![(key, v)] + fs;
                        assert(all.drop_first() =~= fs);
                        assert(all[0] == (key, v));
                        assert(enc_field((key, v)) =~= b.subrange(0, 8 + klen + n));
                        assert(b.skip(8 + klen).subrange(0, n) =~= b.subrange(
                            8 + klen,
                            8 + klen + n,
                        ));
                        assert(b.skip(8 + klen + n).subrange(0, m) =~= b.subrange(
                            8 + klen + n,
                            8 + klen + n + m,
                        ));
                        assert(enc_fields(all) =~= b.subrange(0, 8 + klen + n + m));
                    },
                }
            }
        },
    }
}

/// Decoding accepts exactly the encodings: a byte string the decoder takes
/// is the encoding of the document it yields, so together with
/// `lemma_codec_round_trip` decoding succeeds on `b` if and only if `b` is
/// the encoding of some document.
pub proof fn lemma_codec_sound(b: Seq<u8>)
    ensures
        dec_doc(b) matches Some(sd) ==> enc_doc(sd) == b,
{
    lemma_auto_spec_u64_to_from_le_bytes();
    if b.len() < 8 {
        return ;
    }
    let cnt = spec_u64_from_le_bytes(b.subrange(0, 8)) as int;
    lemma_dec_fields_sound(b.skip(8), cnt);
    match dec_fields(b.skip(8), cnt) {
        None => {},
        Some((fields, used)) => {
            if 8 + used == b.len() {
                assert(enc_fields(fields) == b.skip(8).subrange(0, used));
                assert(b.skip(8).subrange(0, used) =~= b.subrange(8, b.len() as int));
                assert(enc_doc(fields) =~= b);
            }
        },
    }
}

/// The round trip: decoding the encoding of any document yields exactly that
/// document.  Every document the engine holds satisfies the two premises,
/// which `encode` establishes.
pub proof fn lemma_codec_round_trip(fields: SpecDoc)
    requires
        bounded_fields(fields),
        fields.len() <= u64::MAX,
    ensures
        dec_doc(enc_doc(fields)) == Some(fields),
{
    lemma_auto_spec_u64_to_from_le_bytes();
    let b = enc_doc(fields);
    assert(b.subrange(0, 8) =~= spec_u64_to_le_bytes(fields.len() as u64));
    assert(b.skip(8) =~= enc_fields(fields) + Seq::<u8>::empty());
    lemma_dec_enc_fields(fields, Seq::<u8>::empty());
}

} // verus!
