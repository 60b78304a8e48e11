use vstd::prelude::*;
use crate::value::{
    Document,
    SpecDoc,
    SpecValue,
    Value,
    clone_document,
    clone_value,
    clone_values,
    group_value_model,
    seq_model,
    spec_get,
    spec_remove,
    spec_set,
    str_eq,
};
use crate::extract::{segs_model, spec_split, split_path};

verus! {

/// Why a patch was rejected.  A rejected patch changes nothing: the engine
/// works on a copy and hands it back only on full success.
#[derive(Clone, Copy, PartialEq, Eq, Structural, Debug)]
pub enum PatchError {
    /// A top-level key of the update document is not an update operator.
    UnknownOperator,
    /// The operator is reserved but not implemented.
    UnsupportedOperator,
    /// An operator's operand has the wrong shape.
    BadOperand,
    /// The value under the path has a kind the operator cannot act on.
    TypeMismatch,
    /// The operator demands an existing target and the path is absent.
    MissingTarget,
    /// 64-bit integer arithmetic left the representable range.
    Overflow,
}

/// The update operators of an update document.
#[derive(Clone, Copy, PartialEq, Eq, Structural, Debug)]
pub enum UpdateOperator {
    SetField,
    Unset,
    Inc,
    Min,
    Max,
    CurrentDate,
    Mul,
    Rename,
    SetOnInsert,
    AddToSet,
    Pop,
    Pull,
    Push,
    PullAll,
    Bit,
}

/// The operator a top-level update key names, if any.
pub open spec fn spec_parse_operator(k: Seq<char>) -> Option<UpdateOperator> {
    if k == "$set"@ {
        Some(UpdateOperator::SetField)
    } else if k == "$unset"@ {
        Some(UpdateOperator::Unset)
    } else if k == "$inc"@ {
        Some(UpdateOperator::Inc)
    } else if k == "$min"@ {
        Some(UpdateOperator::Min)
    } else if k == "$max"@ {
        Some(UpdateOperator::Max)
    } else if k == "$currentDate"@ {
        Some(UpdateOperator::CurrentDate)
    } else if k == "$mul"@ {
        Some(UpdateOperator::Mul)
    } else if k == "$rename"@ {
        Some(UpdateOperator::Rename)
    } else if k == "$setOnInsert"@ {
        Some(UpdateOperator::SetOnInsert)
    } else if k == "$addToSet"@ {
        Some(UpdateOperator::AddToSet)
    } else if k == "$pop"@ {
        Some(UpdateOperator::Pop)
    } else if k == "$pull"@ {
        Some(UpdateOperator::Pull)
    } else if k == "$push"@ {
        Some(UpdateOperator::Push)
    } else if k == "$pullAll"@ {
        Some(UpdateOperator::PullAll)
    } else if k == "$bit"@ {
        Some(UpdateOperator::Bit)
    } else {
        None
    }
}

/// One operator applied at the final path segment `k`.
pub open spec fn spec_apply_terminal(
    doc: SpecDoc,
    k: Seq<char>,
    op: UpdateOperator,
    operand: SpecValue,
    now: i64,
) -> Result<SpecDoc, PatchError> {
    match op {
        UpdateOperator::SetField => Ok(spec_set(doc, k, operand)),
        UpdateOperator::SetOnInsert => Ok(spec_set(doc, k, operand)),
        UpdateOperator::Unset => Ok(spec_remove(doc, k)),
        UpdateOperator::Inc => match (spec_get(doc, k), operand) {
            (Some(SpecValue::Int64(a)), SpecValue::Int64(b)) => if a + b > i64::MAX || a + b
                < i64::MIN {
                Err(PatchError::Overflow)
            } else {
                Ok(spec_set(doc, k, SpecValue::Int64((a + b) as i64)))
            },
            _ => Err(PatchError::TypeMismatch),
        },
        UpdateOperator::Mul => match (spec_get(doc, k), operand) {
            (Some(SpecValue::Int64(a)), SpecValue::Int64(b)) => if a * b > i64::MAX || a * b
                < i64::MIN {
                Err(PatchError::Overflow)
            } else {
                Ok(spec_set(doc, k, SpecValue::Int64((a * b) as i64)))
            },
            _ => Err(PatchError::TypeMismatch),
        },
        UpdateOperator::Min => match (spec_get(doc, k), operand) {
            (Some(SpecValue::Int64(a)), SpecValue::Int64(b)) => Ok(
                spec_set(
                    doc,
                    k,
                    SpecValue::Int64(
                        if b < a {
                            b
                        } else {
                            a
                        },
                    ),
                ),
            ),
            _ => Err(PatchError::TypeMismatch),
        },
        UpdateOperator::Max => match (spec_get(doc, k), operand) {
            (Some(SpecValue::Int64(a)), SpecValue::Int64(b)) => Ok(
                spec_set(
                    doc,
                    k,
                    SpecValue::Int64(
                        if b > a {
                            b
                        } else {
                            a
                        },
                    ),
                ),
            ),
            _ => Err(PatchError::TypeMismatch),
        },
        UpdateOperator::CurrentDate => match operand {
            SpecValue::Text(s) => if s == "date"@ || s == "timestamp"@ {
                Ok(spec_set(doc, k, SpecValue::DateTime(now)))
            } else {
                Err(PatchError::BadOperand)
            },
            _ => Err(PatchError::BadOperand),
        },
        UpdateOperator::Rename => match operand {
            SpecValue::Text(new_name) => match spec_get(doc, k) {
                Some(v) => Ok(spec_set(spec_remove(doc, k), new_name, v)),
                None => Err(PatchError::MissingTarget),
            },
            _ => Err(PatchError::BadOperand),
        },
        UpdateOperator::Pop => match operand {
            SpecValue::Int32(p) => if p != 1 && p != -1 {
                Err(PatchError::BadOperand)
            } else {
                match spec_get(doc, k) {
                    Some(SpecValue::Array(items)) => Ok(
                        spec_set(
                            doc,
                            k,
                            SpecValue::Array(
                                if items.len() == 0 {
                                    items
                                } else if p == 1 {
                                    items.drop_last()
                                } else {
                                    items.drop_first()
                                },
                            ),
                        ),
                    ),
                    Some(_) => Err(PatchError::TypeMismatch),
                    None => Err(PatchError::MissingTarget),
                }
            },
            _ => Err(PatchError::BadOperand),
        },
        UpdateOperator::Push => match spec_get(doc, k) {
            None => Ok(spec_set(doc, k, SpecValue::Array(seq![operand]))),
            Some(SpecValue::Array(items)) => Ok(
                spec_set(doc, k, SpecValue::Array(items.push(operand))),
            ),
            Some(_) => Err(PatchError::TypeMismatch),
        },
        _ => Err(PatchError::UnsupportedOperator),
    }
}

/// One operator applied under the path `segs[i..]`: intermediate segments
/// step into sub-documents, creating empty ones where allowed.
pub open spec fn spec_apply_at(
    doc: SpecDoc,
    segs: Seq<Seq<char>>,
    i: int,
    op: UpdateOperator,
    operand: SpecValue,
    now: i64,
) -> Result<SpecDoc, PatchError>
    decreases segs.len() - i,
{
    if i < 0 || i >= segs.len() {
        Ok(doc)
    } else if i == segs.len() - 1 {
        spec_apply_terminal(doc, segs[i], op, operand, now)
    } else {
        let k = segs[i];
        match op {
            UpdateOperator::Unset => match spec_get(doc, k) {
                Some(SpecValue::Object(sub)) => match spec_apply_at(
                    sub,
                    segs,
                    i + 1,
                    op,
                    operand,
                    now,
                ) {
                    Ok(sub2) => Ok(spec_set(doc, k, SpecValue::Object(sub2))),
                    Err(e) => Err(e),
                },
                _ => Ok(doc),
            },
            UpdateOperator::Rename | UpdateOperator::Pop => match spec_get(doc, k) {
                Some(SpecValue::Object(sub)) => match spec_apply_at(
                    sub,
                    segs,
                    i + 1,
                    op,
                    operand,
                    now,
                ) {
                    Ok(sub2) => Ok(spec_set(doc, k, SpecValue::Object(sub2))),
                    Err(e) => Err(e),
                },
                _ => Err(PatchError::MissingTarget),
            },
            _ => {
                let sub = match spec_get(doc, k) {
                    Some(SpecValue::Object(s)) => s,
                    _ => Seq::<(Seq<char>, SpecValue)>::empty(),
                };
                match spec_apply_at(sub, segs, i + 1, op, operand, now) {
                    Ok(sub2) => Ok(spec_set(doc, k, SpecValue::Object(sub2))),
                    Err(e) => Err(e),
                }
            },
        }
    }
}

/// One operator applied to each of its `(path, operand)` pairs, in order.
pub open spec fn spec_apply_pairs(
    doc: SpecDoc,
    pairs: SpecDoc,
    op: UpdateOperator,
    now: i64,
) -> Result<SpecDoc, PatchError>
    decreases pairs.len(),
{
    if pairs.len() == 0 {
        Ok(doc)
    } else {
        match spec_apply_at(doc, spec_split(pairs[0].0), 0, op, pairs[0].1, now) {
            Ok(d2) => spec_apply_pairs(d2, pairs.drop_first(), op, now),
            Err(e) => Err(e),
        }
    }
}

/// The whole update document applied to `doc`: operators in document order,
/// `$setOnInsert` honoured only when `is_insert`, reserved-but-unimplemented
/// operators rejected, `now` used by `$currentDate`.
pub open spec fn spec_apply_update(
    doc: SpecDoc,
    update: SpecDoc,
    is_insert: bool,
    now: i64,
) -> Result<SpecDoc, PatchError>
    decreases update.len(),
{
    if update.len() == 0 {
        Ok(doc)
    } else {
        let p = update[0];
        match spec_parse_operator(p.0) {
            None => Err(PatchError::UnknownOperator),
            Some(op) => if op == UpdateOperator::AddToSet || op == UpdateOperator::Pull || op
                == UpdateOperator::PullAll || op == UpdateOperator::Bit {
                Err(PatchError::UnsupportedOperator)
            } else {
                match p.1 {
                    SpecValue::Object(pairs) => if op == UpdateOperator::SetOnInsert
                        && !is_insert {
                        spec_apply_update(doc, update.drop_first(), is_insert, now)
                    } else {
                        match spec_apply_pairs(doc, pairs, op, now) {
                            Ok(d2) => spec_apply_update(d2, update.drop_first(), is_insert, now),
                            Err(e) => Err(e),
                        }
                    },
                    _ => Err(PatchError::BadOperand),
                }
            },
        }
    }
}

/// The operator a top-level update key names.
pub fn parse_operator(k: &str) -> (r: Option<UpdateOperator>)
    ensures
        r == spec_parse_operator(k@),
{
    if str_eq(k, "$set") {
        Some(UpdateOperator::SetField)
    } else if str_eq(k, "$unset") {
        Some(UpdateOperator::Unset)
    } else if str_eq(k, "$inc") {
        Some(UpdateOperator::Inc)
    } else if str_eq(k, "$min") {
        Some(UpdateOperator::Min)
    } else if str_eq(k, "$max") {
        Some(UpdateOperator::Max)
    } else if str_eq(k, "$currentDate") {
        Some(UpdateOperator::CurrentDate)
    } else if str_eq(k, "$mul") {
        Some(UpdateOperator::Mul)
    } else if str_eq(k, "$rename") {
        Some(UpdateOperator::Rename)
    } else if str_eq(k, "$setOnInsert") {
        Some(UpdateOperator::SetOnInsert)
    } else if str_eq(k, "$addToSet") {
        Some(UpdateOperator::AddToSet)
    } else if str_eq(k, "$pop") {
        Some(UpdateOperator::Pop)
    } else if str_eq(k, "$pull") {
        Some(UpdateOperator::Pull)
    } else if str_eq(k, "$push") {
        Some(UpdateOperator::Push)
    } else if str_eq(k, "$pullAll") {
        Some(UpdateOperator::PullAll)
    } else if str_eq(k, "$bit") {
        Some(UpdateOperator::Bit)
    } else {
        None
    }
}

fn apply_terminal(doc: &Document, k: &String, op: UpdateOperator, operand: &Value, now: i64) -> (r:
    Result<Document, PatchError>)
    ensures
        match r {
            Ok(d2) => spec_apply_terminal(doc@, k@, op, operand@, now) == Ok::<
                SpecDoc,
                PatchError,
            >(d2@),
            Err(e) => spec_apply_terminal(doc@, k@, op, operand@, now) == Err::<
                SpecDoc,
                PatchError,
            >(e),
        },
{
    broadcast use group_value_model;

    match op {
        UpdateOperator::SetField | UpdateOperator::SetOnInsert => {
            let mut d = clone_document(doc);
            d.set(k.clone(), clone_value(operand));
            Ok(d)
        },
        UpdateOperator::Unset => {
            let mut d = clone_document(doc);
            d.remove(k.as_str());
            Ok(d)
        },
        UpdateOperator::Inc => match (doc.get(k.as_str()), operand) {
            (Some(Value::Int64(a)), Value::Int64(b)) => match a.checked_add(*b) {
                Some(sum) => {
                    let mut d = clone_document(doc);
                    d.set(k.clone(), Value::Int64(sum));
                    Ok(d)
                },
                None => Err(PatchError::Overflow),
            },
            _ => Err(PatchError::TypeMismatch),
        },
        UpdateOperator::Mul => match (doc.get(k.as_str()), operand) {
            (Some(Value::Int64(a)), Value::Int64(b)) => match a.checked_mul(*b) {
                Some(prod) => {
                    let mut d = clone_document(doc);
                    d.set(k.clone(), Value::Int64(prod));
                    Ok(d)
                },
                None => Err(PatchError::Overflow),
            },
            _ => Err(PatchError::TypeMismatch),
        },
        UpdateOperator::Min => match (doc.get(k.as_str()), operand) {
            (Some(Value::Int64(a)), Value::Int64(b)) => {
                let m = if *b < *a {
                    *b
                } else {
                    *a
                };
                let mut d = clone_document(doc);
                d.set(k.clone(), Value::Int64(m));
                Ok(d)
            },
            _ => Err(PatchError::TypeMismatch),
        },
        UpdateOperator::Max => match (doc.get(k.as_str()), operand) {
            (Some(Value::Int64(a)), Value::Int64(b)) => {
                let m = if *b > *a {
                    *b
                } else {
                    *a
                };
                let mut d = clone_document(doc);
                d.set(k.clone(), Value::Int64(m));
                Ok(d)
            },
            _ => Err(PatchError::TypeMismatch),
        },
        UpdateOperator::CurrentDate => match operand {
            Value::Text(s) => if str_eq(s.as_str(), "date") || str_eq(s.as_str(), "timestamp") {
                let mut d = clone_document(doc);
                d.set(k.clone(), Value::DateTime(now));
                Ok(d)
            } else {
                Err(PatchError::BadOperand)
            },
            _ => Err(PatchError::BadOperand),
        },
        UpdateOperator::Rename => match operand {
            Value::Text(new_name) => {
                let mut d = clone_document(doc);
                match d.take(k.as_str()) {
                    Some(v) => {
                        d.set(new_name.clone(), v);
                        Ok(d)
                    },
                    None => Err(PatchError::MissingTarget),
                }
            },
            _ => Err(PatchError::BadOperand),
        },
        UpdateOperator::Pop => match operand {
            Value::Int32(p) => {
                let p = *p;
                if p != 1 && p != -1 {
                    return Err(PatchError::BadOperand);
                }
                match doc.get(k.as_str()) {
                    Some(Value::Array(items)) => {
                        let mut new_items = clone_values(items);
                        if new_items.len() > 0 {
                            if p == 1 {
                                new_items.pop();
                                proof {
                                    assert(seq_model(new_items@) =~= seq_model(items@).drop_last());
                                }
                            } else {
                                new_items.remove(0);
                                proof {
                                    assert(seq_model(new_items@) =~= seq_model(
                                        items@,
                                    ).drop_first());
                                }
                            }
                        }
                        let mut d = clone_document(doc);
                        d.set(k.clone(), Value::Array(new_items));
                        Ok(d)
                    },
                    Some(_) => Err(PatchError::TypeMismatch),
                    None => Err(PatchError::MissingTarget),
                }
            },
            _ => Err(PatchError::BadOperand),
        },
        UpdateOperator::Push => match doc.get(k.as_str()) {
            None => {
                let mut items: Vec<Value> = Vec::new();
                items.push(clone_value(operand));
                proof {
                    assert(seq_model(items@) =~= seq![operand@]);
                }
                let mut d = clone_document(doc);
                d.set(k.clone(), Value::Array(items));
                Ok(d)
            },
            Some(Value::Array(items)) => {
                let mut new_items = clone_values(items);
                new_items.push(clone_value(operand));
                proof {
                    assert(seq_model(new_items@) =~= seq_model(items@).push(operand@));
                }
                let mut d = clone_document(doc);
                d.set(k.clone(), Value::Array(new_items));
                Ok(d)
            },
            Some(_) => Err(PatchError::TypeMismatch),
        },
        _ => Err(PatchError::UnsupportedOperator),
    }
}

fn wrap_sub(doc: &Document, k: &String, rec: Result<Document, PatchError>) -> (r: Result<
    Document,
    PatchError,
>)
    ensures
        match r {
            Ok(d2) => rec matches Ok(sub2) && d2@ == spec_set(
                doc@,
                k@,
                SpecValue::Object(sub2@),
            ),
            Err(e) => rec matches Err(e2) && e == e2,
        },
{
    match rec {
        Ok(sub2) => {
            let mut d = clone_document(doc);
            d.set(k.clone(), Value::Object(sub2));
            Ok(d)
        },
        Err(e) => Err(e),
    }
}

fn apply_at(
    doc: &Document,
    segs: &Vec<String>,
    i: usize,
    op: UpdateOperator,
    operand: &Value,
    now: i64,
) -> (r: Result<Document, PatchError>)
    requires
        i < segs@.len(),
    ensures
        match r {
            Ok(d2) => spec_apply_at(doc@, segs_model(segs@), i as int, op, operand@, now) == Ok::<
                SpecDoc,
                PatchError,
            >(d2@),
            Err(e) => spec_apply_at(doc@, segs_model(segs@), i as int, op, operand@, now) == Err::<
                SpecDoc,
                PatchError,
            >(e),
        },
    decreases segs@.len() - i,
{
    broadcast use group_value_model;

    if i == segs.len() - 1 {
        return apply_terminal(doc, &segs[i], op, operand, now);
    }
    let k = &segs[i];
    match op {
        UpdateOperator::Unset => match doc.get(k.as_str()) {
            Some(Value::Object(sub)) => wrap_sub(doc, k, apply_at(sub, segs, i + 1, op, operand, now)),
            _ => Ok(clone_document(doc)),
        },
        UpdateOperator::Rename | UpdateOperator::Pop => match doc.get(k.as_str()) {
            Some(Value::Object(sub)) => wrap_sub(doc, k, apply_at(sub, segs, i + 1, op, operand, now)),
            _ => Err(PatchError::MissingTarget),
        },
        _ => match doc.get(k.as_str()) {
            Some(Value::Object(sub)) => wrap_sub(doc, k, apply_at(sub, segs, i + 1, op, operand, now)),
            _ => {
                let empty = Document::new();
                wrap_sub(doc, k, apply_at(&empty, segs, i + 1, op, operand, now))
            },
        },
    }
}

fn apply_pairs_from(doc: &Document, pairs: &Document, j: usize, op: UpdateOperator, now: i64) -> (r:
    Result<Document, PatchError>)
    requires
        j <= pairs@.len(),
    ensures
        match r {
            Ok(d2) => spec_apply_pairs(doc@, pairs@.skip(j as int), op, now) == Ok::<
                SpecDoc,
                PatchError,
            >(d2@),
            Err(e) => spec_apply_pairs(doc@, pairs@.skip(j as int), op, now) == Err::<
                SpecDoc,
                PatchError,
            >(e),
        },
    decreases pairs@.len() - j,
{
    broadcast use group_value_model;

    if j == pairs.len() {
        return Ok(clone_document(doc));
    }
    let f = pairs.field_at(j);
    let segs = split_path(f.0.as_str());
    proof {
        assert(spec_split(f.0@).len() >= 1);
        assert(pairs@.skip(j as int)[0] == pairs@[j as int]);
        assert(pairs@.skip(j as int).drop_first() =~= pairs@.skip(j as int + 1));
    }
    match apply_at(doc, &segs, 0, op, &f.1, now) {
        Ok(d2) => apply_pairs_from(&d2, pairs, j + 1, op, now),
        Err(e) => Err(e),
    }
}

fn apply_update_from(
    doc: &Document,
    update: &Document,
    j: usize,
    is_insert: bool,
    now: i64,
) -> (r: Result<Document, PatchError>)
    requires
        j <= update@.len(),
    ensures
        match r {
            Ok(d2) => spec_apply_update(doc@, update@.skip(j as int), is_insert, now) == Ok::<
                SpecDoc,
                PatchError,
            >(d2@),
            Err(e) => spec_apply_update(doc@, update@.skip(j as int), is_insert, now) == Err::<
                SpecDoc,
                PatchError,
            >(e),
        },
    decreases update@.len() - j,
{
    broadcast use group_value_model;

    if j == update.len() {
        return Ok(clone_document(doc));
    }
    let f = update.field_at(j);
    proof {
        assert(update@.skip(j as int)[0] == update@[j as int]);
        assert(update@.skip(j as int).drop_first() =~= update@.skip(j as int + 1));
    }
    match parse_operator(f.0.as_str()) {
        None => {
            assert(spec_apply_update(doc@, update@.skip(j as int), is_insert, now) == Err::<
                SpecDoc,
                PatchError,
            >(PatchError::UnknownOperator));
            Err(PatchError::UnknownOperator)
        },
        Some(op) => {
            if op == UpdateOperator::AddToSet || op == UpdateOperator::Pull || op
                == UpdateOperator::PullAll || op == UpdateOperator::Bit {
                assert(spec_apply_update(doc@, update@.skip(j as int), is_insert, now) == Err::<
                    SpecDoc,
                    PatchError,
                >(PatchError::UnsupportedOperator));
                return Err(PatchError::UnsupportedOperator);
            }
            match &f.1 {
                Value::Object(pairs) => if op == UpdateOperator::SetOnInsert && !is_insert {
                    assert(spec_apply_update(doc@, update@.skip(j as int), is_insert, now)
                        == spec_apply_update(doc@, update@.skip(j as int + 1), is_insert, now));
                    apply_update_from(doc, update, j + 1, is_insert, now)
                } else {
                    match apply_pairs_from(doc, pairs, 0, op, now) {
                    Ok(d2) => {
                        proof {
                            assert(pairs@.skip(0) =~= pairs@);
                            assert(spec_apply_pairs(doc@, pairs@, op, now) == Ok::<
                                SpecDoc,
                                PatchError,
                            >(d2@));
                        }
                        apply_update_from(&d2, update, j + 1, is_insert, now)
                    },
                    Err(e) => {
                        proof {
                            assert(pairs@.skip(0) =~= pairs@);
                        }
                        Err(e)
                    },
                    }
                },
                _ => {
                    assert(spec_apply_update(doc@, update@.skip(j as int), is_insert, now) == Err::<
                        SpecDoc,
                        PatchError,
                    >(PatchError::BadOperand));
                    Err(PatchError::BadOperand)
                },
            }
        },
    }
}

/// Apply an update document to `doc` and return the patched copy: operators
/// in document order, `$setOnInsert` honoured only when `is_insert` is set,
/// and `now` (milliseconds) written by `$currentDate`.  `$push` appends its
/// operand to the array under the path, creating a fresh one-element array
/// when the field is absent and rejecting a non-array target.  On any error
/// the original document is untouched and nothing is handed back, so a
/// failed patch can never be observed half-applied.
pub fn apply_update(doc: &Document, update: &Document, is_insert: bool, now: i64) -> (r: Result<
    Document,
    PatchError,
>)
    ensures
        match r {
            Ok(d2) => spec_apply_update(doc@, update@, is_insert, now) == Ok::<
                SpecDoc,
                PatchError,
            >(d2@),
            Err(e) => spec_apply_update(doc@, update@, is_insert, now) == Err::<
                SpecDoc,
                PatchError,
            >(e),
        },
{
    proof {
        assert(update@.skip(0) =~= update@);
    }
    apply_update_from(doc, update, 0, is_insert, now)
}


/// The document-independent well-formedness of an update document: every
/// top-level key names an implemented operator and every operand is a
/// document of `(path, operand)` pairs.  These are exactly the checks
/// `spec_apply_update` makes before it ever consults the target document,
/// so they can be decided before any statement reaches the store.
pub open spec fn spec_validate_update(update: SpecDoc) -> Result<(), PatchError>
    decreases update.len(),
{
    if update.len() == 0 {
        Ok(())
    } else {
        let p = update[0];
        match spec_parse_operator(p.0) {
            None => Err(PatchError::UnknownOperator),
            Some(op) => if op == UpdateOperator::AddToSet || op == UpdateOperator::Pull || op
                == UpdateOperator::PullAll || op == UpdateOperator::Bit {
                Err(PatchError::UnsupportedOperator)
            } else {
                match p.1 {
                    SpecValue::Object(_) => spec_validate_update(update.drop_first()),
                    _ => Err(PatchError::BadOperand),
                }
            },
        }
    }
}

fn validate_update_from(update: &Document, j: usize) -> (r: Result<(), PatchError>)
    requires
        j <= update@.len(),
    ensures
        r == spec_validate_update(update@.skip(j as int)),
    decreases update@.len() - j,
{
    broadcast use group_value_model;

    if j == update.len() {
        proof {
            assert(update@.skip(j as int) =~= Seq::<(Seq<char>, SpecValue)>::empty());
        }
        return Ok(());
    }
    proof {
        assert(update@.skip(j as int)[0] == update@[j as int]);
        assert(update@.skip(j as int).drop_first() =~= update@.skip(j as int + 1));
    }
    let f = update.field_at(j);
    match parse_operator(f.0.as_str()) {
        None => Err(PatchError::UnknownOperator),
        Some(op) => {
            if op == UpdateOperator::AddToSet || op == UpdateOperator::Pull || op
                == UpdateOperator::PullAll || op == UpdateOperator::Bit {
                return Err(PatchError::UnsupportedOperator);
            }
            match &f.1 {
                Value::Object(_) => validate_update_from(update, j + 1),
                _ => Err(PatchError::BadOperand),
            }
        },
    }
}

/// Check an update document's shape without a target document: accepted
/// exactly when every top-level key is an implemented operator with a
/// document operand.  A rejection here is one `apply_update` would also
/// raise for that operator, and it can be raised before any mutation is
/// attempted anywhere.
pub fn validate_update(update: &Document) -> (r: Result<(), PatchError>)
    ensures
        r == spec_validate_update(update@),
{
    proof {
        assert(update@.skip(0) =~= update@);
    }
    validate_update_from(update, 0)
}

} // verus!
