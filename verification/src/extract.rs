use vstd::prelude::*;
use crate::value::{Document, SpecDoc, SpecValue, Value, group_value_model, spec_get};
use vstd::std_specs::iter::IteratorSpec;

verus! {

/// The position of the first `.` in `s`, or a negative number if there is
/// none.
pub open spec fn first_dot(s: Seq<char>) -> int
    decreases s.len(),
{
    if s.len() == 0 {
        -1
    } else if s[0] == '.' {
        0
    } else {
        let r = first_dot(s.drop_first());
        if r < 0 {
            -1
        } else {
            r + 1
        }
    }
}

/// `first_dot` points at the first dot when there is one, and is negative
/// exactly when there is none.
pub proof fn lemma_first_dot_props(s: Seq<char>)
    ensures
        first_dot(s) >= 0 ==> first_dot(s) < s.len() && s[first_dot(s)] == '.' && forall|j: int|
            0 <= j < first_dot(s) ==> s[j] != '.',
        first_dot(s) < 0 ==> forall|j: int| 0 <= j < s.len() ==> s[j] != '.',
    decreases s.len(),
{
    if s.len() > 0 && s[0] != '.' {
        lemma_first_dot_props(s.drop_first());
        let r = first_dot(s.drop_first());
        if r >= 0 {
            assert(s[r + 1] == s.drop_first()[r]);
            assert forall|j: int| 0 <= j < r + 1 implies s[j] != '.' by {
                if j > 0 {
                    assert(s[j] == s.drop_first()[j - 1]);
                }
            }
        } else {
            assert forall|j: int| 0 <= j < s.len() implies s[j] != '.' by {
                if j > 0 {
                    assert(s[j] == s.drop_first()[j - 1]);
                }
            }
        }
    }
}

/// A path split at its dots: `"a.b.c"` becomes `["a", "b", "c"]`; a path
/// without dots is one segment, and the empty path is one empty segment.
pub open spec fn spec_split(s: Seq<char>) -> Seq<Seq<char>>
    decreases s.len(),
    via spec_split_dec
{
    let d = first_dot(s);
    if d < 0 {
        seq![s]
    } else {
        seq![s.subrange(0, d)] + spec_split(s.skip(d + 1))
    }
}

#[via_fn]
proof fn spec_split_dec(s: Seq<char>) {
    lemma_first_dot_props(s);
}

proof fn lemma_first_dot_at(s: Seq<char>, d: int)
    requires
        0 <= d < s.len(),
        s[d] == '.',
        forall|j: int| 0 <= j < d ==> s[j] != '.',
    ensures
        first_dot(s) == d,
    decreases d,
{
    if d > 0 {
        lemma_first_dot_at(s.drop_first(), d - 1);
    }
}

proof fn lemma_first_dot_none(s: Seq<char>)
    requires
        forall|j: int| 0 <= j < s.len() ==> s[j] != '.',
    ensures
        first_dot(s) < 0,
    decreases s.len(),
{
    if s.len() > 0 {
        lemma_first_dot_none(s.drop_first());
    }
}

/// A segment list seen as its character sequences.
pub open spec fn segs_model(ss: Seq<String>) -> Seq<Seq<char>> {
    Seq::new(ss.len(), |i: int| ss[i]@)
}

/// Relies on std's `String::from_iter`: collecting characters yields the
/// string of exactly those characters, in order.
#[verifier::external_body]
fn chars_to_string(cs: &Vec<char>) -> (r: String)
    ensures
        r@ == cs@,
{
    cs.iter().collect()
}

/// Split a dot-separated field path into its segments.
pub fn split_path(path: &str) -> (segs: Vec<String>)
    ensures
        segs_model(segs@) == spec_split(path@),
{
    let mut it = path.chars();
    let mut segs: Vec<String> = Vec::new();
    let mut cur: Vec<char> = Vec::new();
    loop
        invariant
            IteratorSpec::obeys_prophetic_iter_laws(&it),
            IteratorSpec::decrease(&it) is Some,
            spec_split(path@) =~= segs_model(segs@) + spec_split(cur@ + IteratorSpec::remaining(&it)),
            forall|j: int| 0 <= j < cur@.len() ==> cur@[j] != '.',
        decreases IteratorSpec::decrease(&it)->0,
    {
        let ghost prev_cur = cur@;
        let ghost prev_rem = IteratorSpec::remaining(&it);
        match it.next() {
            None => {
                let seg = chars_to_string(&cur);
                segs.push(seg);
                proof {
                    lemma_first_dot_none(prev_cur);
                    assert(prev_cur + prev_rem =~= prev_cur);
                    assert(spec_split(prev_cur) =~= seq![prev_cur]);
                    assert(segs_model(segs@) =~= segs_model(segs@.drop_last()) + seq![prev_cur]);
                }
                return segs;
            },
            Some(c) => {
                if c == '.' {
                    let seg = chars_to_string(&cur);
                    segs.push(seg);
                    cur = Vec::new();
                    proof {
                        let w = prev_cur + prev_rem;
                        assert(w[prev_cur.len() as int] == '.');
                        lemma_first_dot_at(w, prev_cur.len() as int);
                        assert(w.subrange(0, prev_cur.len() as int) =~= prev_cur);
                        assert(w.skip(prev_cur.len() as int + 1) =~= cur@ + IteratorSpec::remaining(&it));
                        assert(segs_model(segs@) =~= segs_model(segs@.drop_last()) + seq![
                            prev_cur,
                        ]);
                        assert(spec_split(path@) =~= segs_model(segs@) + spec_split(
                            cur@ + IteratorSpec::remaining(&it),
                        ));
                    }
                } else {
                    cur.push(c);
                    proof {
                        assert(cur@ + IteratorSpec::remaining(&it) =~= prev_cur + prev_rem);
                    }
                }
            },
        }
    }
}

/// The value a path addresses inside a value: walk the segments, stepping
/// into sub-documents; absent as soon as a segment is missing or the current
/// value is not a document.
pub open spec fn spec_extract(v: SpecValue, segs: Seq<Seq<char>>, i: int) -> Option<SpecValue>
    decreases segs.len() - i,
{
    if i < 0 || i >= segs.len() {
        Some(v)
    } else {
        match v {
            SpecValue::Object(fields) => match spec_get(fields, segs[i]) {
                Some(c) => spec_extract(c, segs, i + 1),
                None => None,
            },
            _ => None,
        }
    }
}

/// The value a dot-separated path addresses inside a document.
pub open spec fn spec_extract_doc(doc: SpecDoc, path: Seq<char>) -> Option<SpecValue> {
    spec_extract(SpecValue::Object(doc), spec_split(path), 0)
}

fn extract_value<'a>(v: &'a Value, segs: &Vec<String>, i: usize) -> (r: Option<&'a Value>)
    requires
        i <= segs@.len(),
    ensures
        match r {
            Some(rv) => spec_extract(v@, segs_model(segs@), i as int) == Some(rv@),
            None => spec_extract(v@, segs_model(segs@), i as int) is None,
        },
    decreases segs@.len() - i,
{
    broadcast use group_value_model;

    if i == segs.len() {
        return Some(v);
    }
    match v {
        Value::Object(d) => match d.get(segs[i].as_str()) {
            Some(c) => extract_value(c, segs, i + 1),
            None => None,
        },
        _ => None,
    }
}

/// The deterministic field-path extractor: the typed value `path` addresses
/// in `doc`, or nothing.  It is a pure function of its two arguments, which
/// is what lets the backing store use it inside index expressions.
pub fn extract<'a>(doc: &'a Document, path: &str) -> (r: Option<&'a Value>)
    ensures
        match r {
            Some(rv) => spec_extract_doc(doc@, path@) == Some(rv@),
            None => spec_extract_doc(doc@, path@) is None,
        },
{
    let segs = split_path(path);
    proof {
        assert(spec_split(path@).len() >= 1);
    }
    extract_root(doc, &segs)
}

/// Walk from the document root without wrapping it in a value.
fn extract_root<'a>(doc: &'a Document, segs: &Vec<String>) -> (r: Option<&'a Value>)
    requires
        segs@.len() >= 1,
    ensures
        match r {
            Some(rv) => spec_extract(SpecValue::Object(doc@), segs_model(segs@), 0) == Some(rv@),
            None => spec_extract(SpecValue::Object(doc@), segs_model(segs@), 0) is None,
        },
{
    broadcast use group_value_model;

    match doc.get(segs[0].as_str()) {
        Some(c) => extract_value(c, segs, 1),
        None => None,
    }
}

} // verus!
