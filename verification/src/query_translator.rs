use vstd::prelude::*;
use crate::value::{Document, SpecDoc, SpecValue, Value, group_value_model, spec_get, str_eq};
use crate::numfmt::{spec_udec, u128_to_dec};
use vstd::string::{StringExecFns, StrSliceExecFns};

verus! {

/// A positional parameter handed to the backing store alongside the
/// predicate text.  Real-valued parameters do not occur: floating-point
/// literals stay outside the verified engine.
#[derive(Debug, PartialEq)]
pub enum SqlValue {
    Null,
    Integer(i64),
    Text(String),
    Blob(Vec<u8>),
}

/// The model of a parameter.
pub enum SpecSqlValue {
    Null,
    Integer(i64),
    Text(Seq<char>),
    Blob(Seq<u8>),
}

impl View for SqlValue {
    type V = SpecSqlValue;

    open spec fn view(&self) -> SpecSqlValue {
        match self {
            SqlValue::Null => SpecSqlValue::Null,
            SqlValue::Integer(i) => SpecSqlValue::Integer(*i),
            SqlValue::Text(s) => SpecSqlValue::Text(s@),
            SqlValue::Blob(b) => SpecSqlValue::Blob(b@),
        }
    }
}

/// A parameter list seen as its models, in order.
pub open spec fn params_model(ps: Seq<SqlValue>) -> Seq<SpecSqlValue> {
    Seq::new(ps.len(), |i: int| ps[i]@)
}

/// Why a query document was rejected.
#[derive(Clone, Copy, PartialEq, Eq, Structural, Debug)]
pub enum TranslationError {
    /// A `$`-key is not an operator the translator knows.
    UnsupportedOperator,
    /// A literal of a kind that cannot stand in a comparison.
    UnsupportedType,
    /// `_id` compared with something other than a plain integer.
    InvalidId,
    /// An operator's operand has the wrong shape or arity.
    BadOperand,
    /// `$mod` with divisor zero.
    ZeroDivisor,
}

/// The predicate text addressing `path`.
pub open spec fn fld(path: Seq<char>) -> Seq<char> {
    "json_field('"@ + path + "', raw)"@
}

/// The placeholder that references the parameter after `n0` existing ones.
pub open spec fn ph(n0: int) -> Seq<char> {
    "?"@ + spec_udec((n0 + 1) as nat)
}

/// The comparison spelled by a comparison operator key.
pub open spec fn cmp_sql(k: Seq<char>) -> Seq<char> {
    if k == "$lt"@ {
        " < "@
    } else if k == "$gt"@ {
        " > "@
    } else if k == "$gte"@ {
        " >= "@
    } else if k == "$lte"@ {
        " <= "@
    } else if k == "$eq"@ {
        " = "@
    } else {
        " != "@
    }
}

pub open spec fn is_cmp_key(k: Seq<char>) -> bool {
    k == "$lt"@ || k == "$gt"@ || k == "$gte"@ || k == "$lte"@ || k == "$eq"@ || k == "$ne"@
}

/// The engine function named by a bit-test operator key.
pub open spec fn bits_fn(k: Seq<char>) -> Seq<char> {
    if k == "$bitsAllClear"@ {
        "json_field_bits_all_clear('"@
    } else if k == "$bitsAllSet"@ {
        "json_field_bits_all_set('"@
    } else if k == "$bitsAnyClear"@ {
        "json_field_bits_any_clear('"@
    } else {
        "json_field_bits_any_set('"@
    }
}

pub open spec fn is_bits_key(k: Seq<char>) -> bool {
    k == "$bitsAllClear"@ || k == "$bitsAllSet"@ || k == "$bitsAnyClear"@ || k == "$bitsAnySet"@
}

/// The parameter a literal becomes, if it is a kind that can be bound.
pub open spec fn spec_value_param(v: SpecValue) -> Option<SpecSqlValue> {
    match v {
        SpecValue::Null => Some(SpecSqlValue::Null),
        SpecValue::Bool(b) => Some(
            SpecSqlValue::Integer(
                if b {
                    1
                } else {
                    0
                },
            ),
        ),
        SpecValue::Int32(i) => Some(SpecSqlValue::Integer(i as i64)),
        SpecValue::Int64(i) => Some(SpecSqlValue::Integer(i)),
        SpecValue::Text(s) => Some(SpecSqlValue::Text(s)),
        _ => None,
    }
}

/// Join two clause texts, dropping an empty side.
pub open spec fn join_txt(a: Seq<char>, sep: Seq<char>, b: Seq<char>) -> Seq<char> {
    if a.len() == 0 {
        b
    } else if b.len() == 0 {
        a
    } else {
        a + sep + b
    }
}

/// Placeholders for a list of literals, comma separated, with their
/// parameters: the body of an `IN (...)`.
pub open spec fn spec_params_list(items: Seq<SpecValue>, n0: int) -> Result<
    (Seq<char>, Seq<SpecSqlValue>),
    TranslationError,
>
    decreases items.len(),
{
    if items.len() == 0 {
        Ok((Seq::<char>::empty(), Seq::<SpecSqlValue>::empty()))
    } else {
        match spec_value_param(items[0]) {
            None => Err(TranslationError::UnsupportedType),
            Some(p) => match spec_params_list(items.drop_first(), n0 + 1) {
                Err(e) => Err(e),
                Ok((t2, p2)) => Ok((join_txt(ph(n0), ", "@, t2), seq![p] + p2)),
            },
        }
    }
}

/// Like `spec_params_list` but each literal must be text: the body of a
/// `$type` list.
pub open spec fn spec_text_params_list(items: Seq<SpecValue>, n0: int) -> Result<
    (Seq<char>, Seq<SpecSqlValue>),
    TranslationError,
>
    decreases items.len(),
{
    if items.len() == 0 {
        Ok((Seq::<char>::empty(), Seq::<SpecSqlValue>::empty()))
    } else {
        match items[0] {
            SpecValue::Text(s) => match spec_text_params_list(items.drop_first(), n0 + 1) {
                Err(e) => Err(e),
                Ok((t2, p2)) => Ok(
                    (join_txt(ph(n0), ", "@, t2), seq![SpecSqlValue::Text(s)] + p2),
                ),
            },
            _ => Err(TranslationError::BadOperand),
        }
    }
}

/// Equality clauses for each element of an `$all` list, joined by `AND`.
pub open spec fn spec_all_list(scope: Seq<char>, items: Seq<SpecValue>, n0: int) -> Result<
    (Seq<char>, Seq<SpecSqlValue>),
    TranslationError,
>
    decreases items.len(),
{
    if items.len() == 0 {
        Ok((Seq::<char>::empty(), Seq::<SpecSqlValue>::empty()))
    } else {
        match spec_value_param(items[0]) {
            None => Err(TranslationError::UnsupportedType),
            Some(p) => match spec_all_list(scope, items.drop_first(), n0 + 1) {
                Err(e) => Err(e),
                Ok((t2, p2)) => Ok(
                    (join_txt(fld(scope) + " = "@ + ph(n0), " AND "@, t2), seq![p] + p2),
                ),
            },
        }
    }
}

/// One field-level operator turned into a clause; `sub` is the whole
/// operator document, which `$regex` consults for a sibling `$options`.
/// `$options` itself contributes no clause.
pub open spec fn spec_op_clause(
    scope: Seq<char>,
    k: Seq<char>,
    v: SpecValue,
    sub: SpecDoc,
    n0: int,
) -> Result<Option<(Seq<char>, Seq<SpecSqlValue>)>, TranslationError> {
    if k == "$options"@ {
        Ok(None)
    } else if is_cmp_key(k) {
        match v {
            SpecValue::Int32(_) | SpecValue::Int64(_) | SpecValue::Text(_) => Ok(
                Some(
                    (
                        fld(scope) + cmp_sql(k) + ph(n0),
                        seq![spec_value_param(v).unwrap()],
                    ),
                ),
            ),
            SpecValue::Double(_) => Err(TranslationError::UnsupportedType),
            _ => Err(TranslationError::BadOperand),
        }
    } else if k == "$in"@ || k == "$nin"@ {
        match v {
            SpecValue::Array(items) => match spec_params_list(items, n0) {
                Err(e) => Err(e),
                Ok((t, p)) => Ok(
                    Some(
                        (
                            fld(scope) + (
                            if k == "$in"@ {
                                " IN ("@
                            } else {
                                " NOT IN ("@
                            }) + t + ")"@,
                            p,
                        ),
                    ),
                ),
            },
            _ => Err(TranslationError::BadOperand),
        }
    } else if k == "$exists"@ {
        match v {
            SpecValue::Bool(b) => Ok(
                Some(
                    (
                        "json_field_exists('"@ + scope + "', raw) = "@ + ph(n0),
                        seq![
                            SpecSqlValue::Integer(
                                if b {
                                    1
                                } else {
                                    0
                                },
                            ),
                        ],
                    ),
                ),
            ),
            _ => Err(TranslationError::BadOperand),
        }
    } else if k == "$type"@ {
        match v {
            SpecValue::Text(s) => Ok(
                Some(
                    (
                        "json_field_type('"@ + scope + "', raw) = "@ + ph(n0),
                        seq![SpecSqlValue::Text(s)],
                    ),
                ),
            ),
            SpecValue::Array(items) => match spec_text_params_list(items, n0) {
                Err(e) => Err(e),
                Ok((t, p)) => Ok(
                    Some(("json_field_type('"@ + scope + "', raw) IN ("@ + t + ")"@, p)),
                ),
            },
            _ => Err(TranslationError::BadOperand),
        }
    } else if k == "$size"@ {
        match v {
            SpecValue::Int32(_) | SpecValue::Int64(_) => Ok(
                Some(
                    (
                        "json_field_size('"@ + scope + "', raw) = "@ + ph(n0),
                        seq![spec_value_param(v).unwrap()],
                    ),
                ),
            ),
            SpecValue::Double(_) => Err(TranslationError::UnsupportedType),
            _ => Err(TranslationError::BadOperand),
        }
    } else if k == "$all"@ {
        match v {
            SpecValue::Array(items) => match spec_all_list(scope, items, n0) {
                Err(e) => Err(e),
                Ok((t, p)) => Ok(Some(("("@ + t + ")"@, p))),
            },
            _ => Err(TranslationError::BadOperand),
        }
    } else if k == "$elemMatch"@ {
        match v {
            SpecValue::Array(items) => match spec_params_list(items, n0) {
                Err(e) => Err(e),
                Ok((t, p)) => Ok(Some((fld(scope) + " IN ("@ + t + ")"@, p))),
            },
            _ => Err(TranslationError::BadOperand),
        }
    } else if is_bits_key(k) {
        match v {
            SpecValue::Int32(_) | SpecValue::Int64(_) => Ok(
                Some(
                    (
                        bits_fn(k) + scope + "', raw, "@ + ph(n0) + ")"@,
                        seq![spec_value_param(v).unwrap()],
                    ),
                ),
            ),
            _ => Err(TranslationError::BadOperand),
        }
    } else if k == "$mod"@ {
        match v {
            SpecValue::Array(items) => if items.len() != 2 {
                Err(TranslationError::BadOperand)
            } else {
                match (items[0], items[1]) {
                    (SpecValue::Int32(d), SpecValue::Int32(r)) => if d == 0 {
                        Err(TranslationError::ZeroDivisor)
                    } else {
                        Ok(
                            Some(
                                (
                                    fld(scope) + " % "@ + ph(n0) + " = "@ + ph(n0 + 1),
                                    seq![
                                        SpecSqlValue::Integer(d as i64),
                                        SpecSqlValue::Integer(r as i64),
                                    ],
                                ),
                            ),
                        )
                    },
                    (SpecValue::Int64(d), SpecValue::Int64(r)) => if d == 0 {
                        Err(TranslationError::ZeroDivisor)
                    } else {
                        Ok(
                            Some(
                                (
                                    fld(scope) + " % "@ + ph(n0) + " = "@ + ph(n0 + 1),
                                    seq![SpecSqlValue::Integer(d), SpecSqlValue::Integer(r)],
                                ),
                            ),
                        )
                    },
                    _ => Err(TranslationError::BadOperand),
                }
            },
            _ => Err(TranslationError::BadOperand),
        }
    } else if k == "$regex"@ {
        match v {
            SpecValue::Text(re) => match spec_get(sub, "$options"@) {
                Some(SpecValue::Text(o)) => Ok(
                    Some(
                        (
                            "json_field_regex('"@ + scope + "', raw, "@ + ph(n0) + ", "@ + ph(
                                n0 + 1,
                            ) + ")"@,
                            seq![SpecSqlValue::Text(re), SpecSqlValue::Text(o)],
                        ),
                    ),
                ),
                Some(_) => Err(TranslationError::BadOperand),
                None => Ok(
                    Some(
                        (
                            "json_field_regex('"@ + scope + "', raw, "@ + ph(n0) + ", "@ + ph(
                                n0 + 1,
                            ) + ")"@,
                            seq![
                                SpecSqlValue::Text(re),
                                SpecSqlValue::Text(Seq::<char>::empty()),
                            ],
                        ),
                    ),
                ),
            },
            _ => Err(TranslationError::BadOperand),
        }
    } else {
        Err(TranslationError::UnsupportedOperator)
    }
}

/// A document under a field is an operator document when its first key
/// starts with `$`.
pub open spec fn is_op_doc(sub: SpecDoc) -> bool {
    sub.len() > 0 && sub[0].0.len() > 0 && sub[0].0[0] == '$'
}

/// The clauses of an operator document, conjoined.
pub open spec fn spec_op_doc(scope: Seq<char>, sub: SpecDoc, fields: SpecDoc, n0: int) -> Result<
    (Seq<char>, Seq<SpecSqlValue>),
    TranslationError,
>
    decreases fields, 0int,
{
    if fields.len() == 0 {
        Ok((Seq::<char>::empty(), Seq::<SpecSqlValue>::empty()))
    } else if fields[0].0.len() == 0 || fields[0].0[0] != '$' {
        Err(TranslationError::UnsupportedOperator)
    } else {
        match spec_op_clause(scope, fields[0].0, fields[0].1, sub, n0) {
            Err(e) => Err(e),
            Ok(None) => spec_op_doc(scope, sub, fields.drop_first(), n0),
            Ok(Some((t1, p1))) => match spec_op_doc(
                scope,
                sub,
                fields.drop_first(),
                n0 + p1.len(),
            ) {
                Err(e) => Err(e),
                Ok((t2, p2)) => Ok((join_txt(t1, " AND "@, t2), p1 + p2)),
            },
        }
    }
}

/// The clauses of a path-scoped plain document, conjoined: scalar fields
/// compare under the dot-joined path, nested documents recurse.
pub open spec fn spec_plain_doc(scope: Seq<char>, fields: SpecDoc, n0: int) -> Result<
    (Seq<char>, Seq<SpecSqlValue>),
    TranslationError,
>
    decreases fields, 0int,
    via spec_plain_doc_dec
{
    if fields.len() == 0 {
        Ok((Seq::<char>::empty(), Seq::<SpecSqlValue>::empty()))
    } else if fields[0].0.len() > 0 && fields[0].0[0] == '$' {
        Err(TranslationError::UnsupportedOperator)
    } else {
        let k = fields[0].0;
        let step = match fields[0].1 {
            SpecValue::Object(sub2) => spec_nested(scope + "."@ + k, sub2, n0),
            SpecValue::Null => Ok(
                (fld(scope + "."@ + k) + " IS NULL"@, Seq::<SpecSqlValue>::empty()),
            ),
            SpecValue::Text(_) | SpecValue::Int32(_) | SpecValue::Int64(_) | SpecValue::Bool(_) => Ok(
                (
                    fld(scope + "."@ + k) + " = "@ + ph(n0),
                    seq![spec_value_param(fields[0].1).unwrap()],
                ),
            ),
            _ => Err(TranslationError::UnsupportedType),
        };
        match step {
            Err(e) => Err(e),
            Ok((t1, p1)) => match spec_plain_doc(scope, fields.drop_first(), n0 + p1.len()) {
                Err(e) => Err(e),
                Ok((t2, p2)) => Ok((join_txt(t1, " AND "@, t2), p1 + p2)),
            },
        }
    }
}

#[via_fn]
proof fn spec_plain_doc_dec(scope: Seq<char>, fields: SpecDoc, n0: int) {
    if fields.len() > 0 {
        assert(decreases_to!(fields => fields[0]));
        assert(decreases_to!(fields[0] => fields[0].1));
        match fields[0].1 {
            SpecValue::Object(sub2) => {
                assert(decreases_to!(fields[0].1 => sub2));
            },
            _ => {},
        }
    }
}

/// A nested document under a field: an operator document or a path-scoped
/// plain document.
pub open spec fn spec_nested(scope: Seq<char>, sub: SpecDoc, n0: int) -> Result<
    (Seq<char>, Seq<SpecSqlValue>),
    TranslationError,
>
    decreases sub, 1int,
{
    if is_op_doc(sub) {
        spec_op_doc(scope, sub, sub, n0)
    } else {
        spec_plain_doc(scope, sub, n0)
    }
}

/// The sub-queries of a `$or`/`$and`/`$nor` array, each translated as a
/// query, joined by `sep`.
pub open spec fn spec_doc_list(items: Seq<SpecValue>, sep: Seq<char>, n0: int) -> Result<
    (Seq<char>, Seq<SpecSqlValue>),
    TranslationError,
>
    decreases items, 1int,
    via spec_doc_list_dec
{
    if items.len() == 0 {
        Ok((Seq::<char>::empty(), Seq::<SpecSqlValue>::empty()))
    } else {
        match items[0] {
            SpecValue::Object(sub) => match spec_query(sub, n0) {
                Err(e) => Err(e),
                Ok((t1, p1)) => match spec_doc_list(items.drop_first(), sep, n0 + p1.len()) {
                    Err(e) => Err(e),
                    Ok((t2, p2)) => Ok((join_txt(t1, sep, t2), p1 + p2)),
                },
            },
            _ => Err(TranslationError::BadOperand),
        }
    }
}

#[via_fn]
proof fn spec_doc_list_dec(items: Seq<SpecValue>, sep: Seq<char>, n0: int) {
    if items.len() > 0 {
        assert(decreases_to!(items => items[0]));
        match items[0] {
            SpecValue::Object(sub) => {
                assert(decreases_to!(items[0] => sub));
            },
            _ => {},
        }
    }
}

/// One top-level query field turned into a clause.
pub open spec fn spec_field(f: (Seq<char>, SpecValue), n0: int) -> Result<
    (Seq<char>, Seq<SpecSqlValue>),
    TranslationError,
>
    decreases f, 2int,
    via spec_field_dec
{
    let k = f.0;
    if k.len() > 0 && k[0] == '$' {
        if k == "$or"@ {
            match f.1 {
                SpecValue::Array(items) => match spec_doc_list(items, " OR "@, n0) {
                    Err(e) => Err(e),
                    Ok((t, p)) => Ok(("("@ + t + ")"@, p)),
                },
                _ => Err(TranslationError::BadOperand),
            }
        } else if k == "$and"@ {
            match f.1 {
                SpecValue::Array(items) => match spec_doc_list(items, " AND "@, n0) {
                    Err(e) => Err(e),
                    Ok((t, p)) => Ok(("("@ + t + ")"@, p)),
                },
                _ => Err(TranslationError::BadOperand),
            }
        } else if k == "$nor"@ {
            match f.1 {
                SpecValue::Array(items) => match spec_doc_list(items, " OR "@, n0) {
                    Err(e) => Err(e),
                    Ok((t, p)) => Ok(("NOT ("@ + t + ")"@, p)),
                },
                _ => Err(TranslationError::BadOperand),
            }
        } else if k == "$not"@ {
            match f.1 {
                SpecValue::Object(sub) => match spec_query(sub, n0) {
                    Err(e) => Err(e),
                    Ok((t, p)) => Ok(("NOT ("@ + t + ")"@, p)),
                },
                _ => Err(TranslationError::BadOperand),
            }
        } else {
            Err(TranslationError::UnsupportedOperator)
        }
    } else {
        match f.1 {
            SpecValue::Object(sub) => if k == "_id"@ {
                Err(TranslationError::InvalidId)
            } else {
                spec_nested(k, sub, n0)
            },
            SpecValue::Null => if k == "_id"@ {
                Err(TranslationError::InvalidId)
            } else {
                Ok((fld(k) + " IS NULL"@, Seq::<SpecSqlValue>::empty()))
            },
            SpecValue::Int32(i) => if k == "_id"@ {
                Ok(("_id = "@ + ph(n0), seq![SpecSqlValue::Integer(i as i64)]))
            } else {
                Ok((fld(k) + " = "@ + ph(n0), seq![SpecSqlValue::Integer(i as i64)]))
            },
            SpecValue::Int64(i) => if k == "_id"@ {
                Ok(("_id = "@ + ph(n0), seq![SpecSqlValue::Integer(i)]))
            } else {
                Ok((fld(k) + " = "@ + ph(n0), seq![SpecSqlValue::Integer(i)]))
            },
            SpecValue::Text(s) => if k == "_id"@ {
                Err(TranslationError::InvalidId)
            } else {
                Ok((fld(k) + " = "@ + ph(n0), seq![SpecSqlValue::Text(s)]))
            },
            SpecValue::Bool(b) => if k == "_id"@ {
                Err(TranslationError::InvalidId)
            } else {
                Ok(
                    (
                        fld(k) + " = "@ + ph(n0),
                        seq![
                            SpecSqlValue::Integer(
                                if b {
                                    1
                                } else {
                                    0
                                },
                            ),
                        ],
                    ),
                )
            },
            _ => Err(TranslationError::UnsupportedType),
        }
    }
}

#[via_fn]
proof fn spec_field_dec(f: (Seq<char>, SpecValue), n0: int) {
    assert(decreases_to!(f => f.1));
    match f.1 {
        SpecValue::Array(items) => {
            assert(decreases_to!(f.1 => items));
        },
        SpecValue::Object(sub) => {
            assert(decreases_to!(f.1 => sub));
        },
        _ => {},
    }
}

/// A whole query document: its top-level clauses conjoined, its parameters
/// in the order the literals are met on a left-to-right, depth-first walk,
/// numbered from `n0`.
pub open spec fn spec_query(fields: SpecDoc, n0: int) -> Result<
    (Seq<char>, Seq<SpecSqlValue>),
    TranslationError,
>
    decreases fields, 2int,
{
    if fields.len() == 0 {
        Ok((Seq::<char>::empty(), Seq::<SpecSqlValue>::empty()))
    } else {
        match spec_field(fields[0], n0) {
            Err(e) => Err(e),
            Ok((t1, p1)) => match spec_query(fields.drop_first(), n0 + p1.len()) {
                Err(e) => Err(e),
                Ok((t2, p2)) => Ok((join_txt(t1, " AND "@, t2), p1 + p2)),
            },
        }
    }
}

/// The complement law of `$nor` and `$or`: on the same array of sub-queries
/// both translate the same inner disjunction with the same parameters, and
/// the `$nor` predicate is exactly the negation of the `$or` predicate, so
/// it selects exactly the complementary rows.
pub proof fn lemma_nor_complements_or(arr: Seq<SpecValue>, n0: int)
    ensures
        match spec_doc_list(arr, " OR "@, n0) {
            Ok(p) => spec_field(("$nor"@, SpecValue::Array(arr)), n0) == Ok::<
                (Seq<char>, Seq<SpecSqlValue>),
                TranslationError,
            >(("NOT ("@ + p.0 + ")"@, p.1)) && spec_field(("$or"@, SpecValue::Array(arr)), n0)
                == Ok::<(Seq<char>, Seq<SpecSqlValue>), TranslationError>(("("@ + p.0 + ")"@, p.1)),
            Err(e) => spec_field(("$nor"@, SpecValue::Array(arr)), n0) == Err::<
                (Seq<char>, Seq<SpecSqlValue>),
                TranslationError,
            >(e) && spec_field(("$or"@, SpecValue::Array(arr)), n0) == Err::<
                (Seq<char>, Seq<SpecSqlValue>),
                TranslationError,
            >(e),
        },
{
    reveal_strlit("$nor");
    reveal_strlit("$or");
    reveal_strlit("$and");
    reveal_strlit("$not");
    assert("$nor"@.len() == 4);
    assert("$or"@.len() == 3);
    assert("$nor"@[0] == '$');
    assert("$or"@[0] == '$');
    assert("$or"@ != "$nor"@);
    assert("$or"@ != "$and"@);
    assert("$or"@ != "$not"@);
    assert("$nor"@[1] == 'n' && "$and"@[1] == 'a');
    assert("$nor"@ != "$and"@);
    assert("$nor"@[3] == 'r' && "$not"@[3] == 't');
    assert("$nor"@ != "$not"@);
}


/// The first character of `s`, if any.
fn first_char(s: &str) -> (r: Option<char>)
    ensures
        s@.len() > 0 ==> r == Some(s@[0]),
        s@.len() == 0 ==> r is None,
{
    let mut it = s.chars();
    it.next()
}

/// Join two clause texts, dropping an empty side.
fn join_str(a: String, sep: &str, b: String) -> (t: String)
    ensures
        t@ == join_txt(a@, sep@, b@),
{
    if a.as_str().is_empty() {
        b
    } else if b.as_str().is_empty() {
        a
    } else {
        let mut t = a;
        t.append(sep);
        t.append(b.as_str());
        t
    }
}

/// `json_field('path', raw)`.
fn fld_text(path: &str) -> (t: String)
    ensures
        t@ == fld(path@),
{
    let mut t = String::from_str("json_field('");
    t.append(path);
    t.append("', raw)");
    t
}

/// The placeholder for the next parameter, after `base` parameters of the
/// caller and the accumulated ones.
fn ph_text(base: usize, acc_len: usize) -> (t: String)
    ensures
        t@ == ph(base + acc_len),
{
    let n = base as u128 + acc_len as u128 + 1;
    let mut t = String::from_str("?");
    let digits = u128_to_dec(n);
    t.append(digits.as_str());
    t
}

/// The parameter a literal becomes.
fn value_param(v: &Value) -> (r: Option<SqlValue>)
    ensures
        match r {
            Some(p) => spec_value_param(v@) == Some(p@),
            None => spec_value_param(v@) is None,
        },
{
    match v {
        Value::Null => Some(SqlValue::Null),
        Value::Bool(b) => Some(
            SqlValue::Integer(
                if *b {
                    1
                } else {
                    0
                },
            ),
        ),
        Value::Int32(i) => Some(SqlValue::Integer(*i as i64)),
        Value::Int64(i) => Some(SqlValue::Integer(*i)),
        Value::Text(st) => Some(SqlValue::Text(st.clone())),
        _ => None,
    }
}

fn trans_params_list(items: &Vec<Value>, j: usize, base: usize, acc: &mut Vec<SqlValue>) -> (r:
    Result<String, TranslationError>)
    requires
        j <= items@.len(),
    ensures
        match r {
            Ok(t) => spec_params_list(
                crate::value::seq_model(items@).skip(j as int),
                base + old(acc)@.len(),
            ) matches Ok(p) && t@ == p.0 && params_model(final(acc)@) == params_model(old(acc)@)
                + p.1,
            Err(e) => spec_params_list(
                crate::value::seq_model(items@).skip(j as int),
                base + old(acc)@.len(),
            ) matches Err(e2) && e == e2,
        },
    decreases items@.len() - j,
{
    broadcast use group_value_model;

    let ghost m = crate::value::seq_model(items@);
    if j == items.len() {
        proof {
            assert(m.skip(j as int) =~= Seq::<SpecValue>::empty());
            assert(params_model(acc@) =~= params_model(old(acc)@) + Seq::<SpecSqlValue>::empty());
        }
        return Ok(String::new());
    }
    proof {
        assert(m.skip(j as int)[0] == m[j as int]);
        assert(m.skip(j as int).drop_first() =~= m.skip(j as int + 1));
    }
    match value_param(&items[j]) {
        None => Err(TranslationError::UnsupportedType),
        Some(p) => {
            let ghost pm = p@;
            let t1 = ph_text(base, acc.len());
            acc.push(p);
            proof {
                assert(params_model(acc@) =~= params_model(old(acc)@).push(pm));
            }
            match trans_params_list(items, j + 1, base, acc) {
                Err(e) => Err(e),
                Ok(t2) => {
                    let t = join_str(t1, ", ", t2);
                    proof {
                        assert(params_model(acc@) =~= params_model(old(acc)@) + (seq![pm]
                            + (spec_params_list(m.skip(j as int + 1), base + old(acc)@.len() + 1)
                            ->Ok_0.1)));
                    }
                    Ok(t)
                },
            }
        },
    }
}

fn trans_text_params_list(items: &Vec<Value>, j: usize, base: usize, acc: &mut Vec<SqlValue>) -> (r:
    Result<String, TranslationError>)
    requires
        j <= items@.len(),
    ensures
        match r {
            Ok(t) => spec_text_params_list(
                crate::value::seq_model(items@).skip(j as int),
                base + old(acc)@.len(),
            ) matches Ok(p) && t@ == p.0 && params_model(final(acc)@) == params_model(old(acc)@)
                + p.1,
            Err(e) => spec_text_params_list(
                crate::value::seq_model(items@).skip(j as int),
                base + old(acc)@.len(),
            ) matches Err(e2) && e == e2,
        },
    decreases items@.len() - j,
{
    broadcast use group_value_model;

    let ghost m = crate::value::seq_model(items@);
    if j == items.len() {
        proof {
            assert(m.skip(j as int) =~= Seq::<SpecValue>::empty());
            assert(params_model(acc@) =~= params_model(old(acc)@) + Seq::<SpecSqlValue>::empty());
        }
        return Ok(String::new());
    }
    proof {
        assert(m.skip(j as int)[0] == m[j as int]);
        assert(m.skip(j as int).drop_first() =~= m.skip(j as int + 1));
    }
    match &items[j] {
        Value::Text(st) => {
            let ghost pm = SpecSqlValue::Text(st@);
            let t1 = ph_text(base, acc.len());
            acc.push(SqlValue::Text(st.clone()));
            proof {
                assert(params_model(acc@) =~= params_model(old(acc)@).push(pm));
            }
            match trans_text_params_list(items, j + 1, base, acc) {
                Err(e) => Err(e),
                Ok(t2) => {
                    let t = join_str(t1, ", ", t2);
                    proof {
                        assert(params_model(acc@) =~= params_model(old(acc)@) + (seq![pm]
                            + (spec_text_params_list(
                            m.skip(j as int + 1),
                            base + old(acc)@.len() + 1,
                        )->Ok_0.1)));
                    }
                    Ok(t)
                },
            }
        },
        _ => Err(TranslationError::BadOperand),
    }
}

fn trans_all_list(
    scope: &String,
    items: &Vec<Value>,
    j: usize,
    base: usize,
    acc: &mut Vec<SqlValue>,
) -> (r: Result<String, TranslationError>)
    requires
        j <= items@.len(),
    ensures
        match r {
            Ok(t) => spec_all_list(
                scope@,
                crate::value::seq_model(items@).skip(j as int),
                base + old(acc)@.len(),
            ) matches Ok(p) && t@ == p.0 && params_model(final(acc)@) == params_model(old(acc)@)
                + p.1,
            Err(e) => spec_all_list(
                scope@,
                crate::value::seq_model(items@).skip(j as int),
                base + old(acc)@.len(),
            ) matches Err(e2) && e == e2,
        },
    decreases items@.len() - j,
{
    broadcast use group_value_model;

    let ghost m = crate::value::seq_model(items@);
    if j == items.len() {
        proof {
            assert(m.skip(j as int) =~= Seq::<SpecValue>::empty());
            assert(params_model(acc@) =~= params_model(old(acc)@) + Seq::<SpecSqlValue>::empty());
        }
        return Ok(String::new());
    }
    proof {
        assert(m.skip(j as int)[0] == m[j as int]);
        assert(m.skip(j as int).drop_first() =~= m.skip(j as int + 1));
    }
    match value_param(&items[j]) {
        None => Err(TranslationError::UnsupportedType),
        Some(p) => {
            let ghost pm = p@;
            let mut t1 = fld_text(scope.as_str());
            t1.append(" = ");
            let phs = ph_text(base, acc.len());
            t1.append(phs.as_str());
            acc.push(p);
            proof {
                assert(params_model(acc@) =~= params_model(old(acc)@).push(pm));
            }
            match trans_all_list(scope, items, j + 1, base, acc) {
                Err(e) => Err(e),
                Ok(t2) => {
                    let t = join_str(t1, " AND ", t2);
                    proof {
                        assert(params_model(acc@) =~= params_model(old(acc)@) + (seq![pm]
                            + (spec_all_list(
                            scope@,
                            m.skip(j as int + 1),
                            base + old(acc)@.len() + 1,
                        )->Ok_0.1)));
                    }
                    Ok(t)
                },
            }
        },
    }
}


fn cmp_text(k: &str) -> (r: &'static str)
    requires
        is_cmp_key(k@),
    ensures
        r@ == cmp_sql(k@),
{
    if str_eq(k, "$lt") {
        " < "
    } else if str_eq(k, "$gt") {
        " > "
    } else if str_eq(k, "$gte") {
        " >= "
    } else if str_eq(k, "$lte") {
        " <= "
    } else if str_eq(k, "$eq") {
        " = "
    } else {
        " != "
    }
}

fn bits_text(k: &str) -> (r: &'static str)
    requires
        is_bits_key(k@),
    ensures
        r@ == bits_fn(k@),
{
    if str_eq(k, "$bitsAllClear") {
        "json_field_bits_all_clear('"
    } else if str_eq(k, "$bitsAllSet") {
        "json_field_bits_all_set('"
    } else if str_eq(k, "$bitsAnyClear") {
        "json_field_bits_any_clear('"
    } else {
        "json_field_bits_any_set('"
    }
}

fn trans_op_clause(
    scope: &String,
    k: &str,
    v: &Value,
    sub: &Document,
    base: usize,
    acc: &mut Vec<SqlValue>,
) -> (r: Result<Option<String>, TranslationError>)
    ensures
        match r {
            Ok(topt) => match topt {
                Some(t) => spec_op_clause(scope@, k@, v@, sub@, base + old(acc)@.len()) matches Ok(
                    p,
                ) && p matches Some(q) && t@ == q.0 && params_model(final(acc)@) == params_model(
                    old(acc)@,
                ) + q.1,
                None => spec_op_clause(scope@, k@, v@, sub@, base + old(acc)@.len()) matches Ok(p)
                    && p is None && final(acc)@ == old(acc)@,
            },
            Err(e) => spec_op_clause(scope@, k@, v@, sub@, base + old(acc)@.len()) matches Err(e2)
                && e == e2,
        },
{
    broadcast use group_value_model;

    let ghost n0 = base + old(acc)@.len() as int;
    if str_eq(k, "$options") {
        return Ok(None);
    }
    if str_eq(k, "$lt") || str_eq(k, "$gt") || str_eq(k, "$gte") || str_eq(k, "$lte") || str_eq(
        k,
        "$eq",
    ) || str_eq(k, "$ne") {
        match v {
            Value::Int32(_) | Value::Int64(_) | Value::Text(_) => {
                let mut t = fld_text(scope.as_str());
                t.append(cmp_text(k));
                let phs = ph_text(base, acc.len());
                t.append(phs.as_str());
                match value_param(v) {
                    Some(p) => {
                        let ghost pm = p@;
                        acc.push(p);
                        proof {
                            assert(params_model(acc@) =~= params_model(old(acc)@) + seq![pm]);
                        }
                        Ok(Some(t))
                    },
                    None => Err(TranslationError::BadOperand),
                }
            },
            Value::Double(_) => Err(TranslationError::UnsupportedType),
            _ => Err(TranslationError::BadOperand),
        }
    } else if str_eq(k, "$in") || str_eq(k, "$nin") {
        match v {
            Value::Array(items) => {
                proof {
                    assert(crate::value::seq_model(items@).skip(0) =~= crate::value::seq_model(
                        items@,
                    ));
                }
                match trans_params_list(items, 0, base, acc) {
                    Err(e) => Err(e),
                    Ok(inner) => {
                        let mut t = fld_text(scope.as_str());
                        if str_eq(k, "$in") {
                            t.append(" IN (");
                        } else {
                            t.append(" NOT IN (");
                        }
                        t.append(inner.as_str());
                        t.append(")");
                        Ok(Some(t))
                    },
                }
            },
            _ => Err(TranslationError::BadOperand),
        }
    } else if str_eq(k, "$exists") {
        match v {
            Value::Bool(b) => {
                let mut t = String::from_str("json_field_exists('");
                t.append(scope.as_str());
                t.append("', raw) = ");
                let phs = ph_text(base, acc.len());
                t.append(phs.as_str());
                let p = SqlValue::Integer(
                    if *b {
                        1
                    } else {
                        0
                    },
                );
                let ghost pm = p@;
                acc.push(p);
                proof {
                    assert(params_model(acc@) =~= params_model(old(acc)@) + seq![pm]);
                }
                Ok(Some(t))
            },
            _ => Err(TranslationError::BadOperand),
        }
    } else if str_eq(k, "$type") {
        match v {
            Value::Text(st) => {
                let mut t = String::from_str("json_field_type('");
                t.append(scope.as_str());
                t.append("', raw) = ");
                let phs = ph_text(base, acc.len());
                t.append(phs.as_str());
                let p = SqlValue::Text(st.clone());
                let ghost pm = p@;
                acc.push(p);
                proof {
                    assert(params_model(acc@) =~= params_model(old(acc)@) + seq![pm]);
                }
                Ok(Some(t))
            },
            Value::Array(items) => {
                proof {
                    assert(crate::value::seq_model(items@).skip(0) =~= crate::value::seq_model(
                        items@,
                    ));
                }
                match trans_text_params_list(items, 0, base, acc) {
                    Err(e) => Err(e),
                    Ok(inner) => {
                        let mut t = String::from_str("json_field_type('");
                        t.append(scope.as_str());
                        t.append("', raw) IN (");
                        t.append(inner.as_str());
                        t.append(")");
                        Ok(Some(t))
                    },
                }
            },
            _ => Err(TranslationError::BadOperand),
        }
    } else if str_eq(k, "$size") {
        match v {
            Value::Int32(_) | Value::Int64(_) => {
                let mut t = String::from_str("json_field_size('");
                t.append(scope.as_str());
                t.append("', raw) = ");
                let phs = ph_text(base, acc.len());
                t.append(phs.as_str());
                match value_param(v) {
                    Some(p) => {
                        let ghost pm = p@;
                        acc.push(p);
                        proof {
                            assert(params_model(acc@) =~= params_model(old(acc)@) + seq![pm]);
                        }
                        Ok(Some(t))
                    },
                    None => Err(TranslationError::BadOperand),
                }
            },
            Value::Double(_) => Err(TranslationError::UnsupportedType),
            _ => Err(TranslationError::BadOperand),
        }
    } else if str_eq(k, "$all") {
        match v {
            Value::Array(items) => {
                proof {
                    assert(crate::value::seq_model(items@).skip(0) =~= crate::value::seq_model(
                        items@,
                    ));
                }
                match trans_all_list(scope, items, 0, base, acc) {
                    Err(e) => Err(e),
                    Ok(inner) => {
                        let mut t = String::from_str("(");
                        t.append(inner.as_str());
                        t.append(")");
                        Ok(Some(t))
                    },
                }
            },
            _ => Err(TranslationError::BadOperand),
        }
    } else if str_eq(k, "$elemMatch") {
        match v {
            Value::Array(items) => {
                proof {
                    assert(crate::value::seq_model(items@).skip(0) =~= crate::value::seq_model(
                        items@,
                    ));
                }
                match trans_params_list(items, 0, base, acc) {
                    Err(e) => Err(e),
                    Ok(inner) => {
                        let mut t = fld_text(scope.as_str());
                        t.append(" IN (");
                        t.append(inner.as_str());
                        t.append(")");
                        Ok(Some(t))
                    },
                }
            },
            _ => Err(TranslationError::BadOperand),
        }
    } else if str_eq(k, "$bitsAllClear") || str_eq(k, "$bitsAllSet") || str_eq(k, "$bitsAnyClear")
        || str_eq(k, "$bitsAnySet") {
        match v {
            Value::Int32(_) | Value::Int64(_) => {
                let mut t = String::from_str(bits_text(k));
                t.append(scope.as_str());
                t.append("', raw, ");
                let phs = ph_text(base, acc.len());
                t.append(phs.as_str());
                t.append(")");
                match value_param(v) {
                    Some(p) => {
                        let ghost pm = p@;
                        acc.push(p);
                        proof {
                            assert(params_model(acc@) =~= params_model(old(acc)@) + seq![pm]);
                        }
                        Ok(Some(t))
                    },
                    None => Err(TranslationError::BadOperand),
                }
            },
            _ => Err(TranslationError::BadOperand),
        }
    } else if str_eq(k, "$mod") {
        match v {
            Value::Array(items) => {
                if items.len() != 2 {
                    return Err(TranslationError::BadOperand);
                }
                proof {
                    assert(crate::value::seq_model(items@)[0] == crate::value::value_model(
                        items@[0],
                    ));
                    assert(crate::value::seq_model(items@)[1] == crate::value::value_model(
                        items@[1],
                    ));
                }
                let d_param: SqlValue;
                let r_param: SqlValue;
                match (&items[0], &items[1]) {
                    (Value::Int32(d), Value::Int32(rr)) => {
                        if *d == 0 {
                            return Err(TranslationError::ZeroDivisor);
                        }
                        d_param = SqlValue::Integer(*d as i64);
                        r_param = SqlValue::Integer(*rr as i64);
                    },
                    (Value::Int64(d), Value::Int64(rr)) => {
                        if *d == 0 {
                            return Err(TranslationError::ZeroDivisor);
                        }
                        d_param = SqlValue::Integer(*d);
                        r_param = SqlValue::Integer(*rr);
                    },
                    _ => {
                        return Err(TranslationError::BadOperand);
                    },
                }
                let mut t = fld_text(scope.as_str());
                t.append(" % ");
                let ph1 = ph_text(base, acc.len());
                t.append(ph1.as_str());
                t.append(" = ");
                let ghost dm = d_param@;
                let ghost rm = r_param@;
                acc.push(d_param);
                let ph2 = ph_text(base, acc.len());
                t.append(ph2.as_str());
                acc.push(r_param);
                proof {
                    assert(params_model(acc@) =~= params_model(old(acc)@) + seq![dm, rm]);
                }
                Ok(Some(t))
            },
            _ => Err(TranslationError::BadOperand),
        }
    } else if str_eq(k, "$regex") {
        match v {
            Value::Text(re) => {
                let options: String;
                match sub.get("$options") {
                    Some(Value::Text(o)) => {
                        options = o.clone();
                    },
                    Some(_) => {
                        return Err(TranslationError::BadOperand);
                    },
                    None => {
                        options = String::new();
                    },
                }
                let mut t = String::from_str("json_field_regex('");
                t.append(scope.as_str());
                t.append("', raw, ");
                let ph1 = ph_text(base, acc.len());
                t.append(ph1.as_str());
                t.append(", ");
                let ghost rem = re@;
                let ghost om = options@;
                acc.push(SqlValue::Text(re.clone()));
                let ph2 = ph_text(base, acc.len());
                t.append(ph2.as_str());
                t.append(")");
                acc.push(SqlValue::Text(options));
                proof {
                    assert(params_model(acc@) =~= params_model(old(acc)@) + seq![
                        SpecSqlValue::Text(rem),
                        SpecSqlValue::Text(om),
                    ]);
                }
                Ok(Some(t))
            },
            _ => Err(TranslationError::BadOperand),
        }
    } else {
        Err(TranslationError::UnsupportedOperator)
    }
}


fn trans_op_doc(scope: &String, sub: &Document, j: usize, base: usize, acc: &mut Vec<SqlValue>) -> (
    r: Result<String, TranslationError>)
    requires
        j <= sub@.len(),
    ensures
        match r {
            Ok(t) => spec_op_doc(scope@, sub@, sub@.skip(j as int), base + old(acc)@.len()) matches
                Ok(p) && t@ == p.0 && params_model(final(acc)@) == params_model(old(acc)@) + p.1,
            Err(e) => spec_op_doc(scope@, sub@, sub@.skip(j as int), base + old(acc)@.len()) matches
                Err(e2) && e == e2,
        },
    decreases sub, sub@.len() - j,
{
    broadcast use group_value_model;

    if j == sub.len() {
        proof {
            assert(sub@.skip(j as int) =~= Seq::<(Seq<char>, SpecValue)>::empty());
            assert(params_model(acc@) =~= params_model(old(acc)@) + Seq::<SpecSqlValue>::empty());
        }
        return Ok(String::new());
    }
    proof {
        assert(sub@.skip(j as int)[0] == sub@[j as int]);
        assert(sub@.skip(j as int).drop_first() =~= sub@.skip(j as int + 1));
    }
    let f = sub.field_at(j);
    let c = first_char(f.0.as_str());
    match c {
        None => Err(TranslationError::UnsupportedOperator),
        Some(c0) => {
            if c0 != '$' {
                return Err(TranslationError::UnsupportedOperator);
            }
            match trans_op_clause(scope, f.0.as_str(), &f.1, sub, base, acc) {
                Err(e) => {
                    proof {
                        assert(spec_op_clause(scope@, f.0@, f.1@, sub@, base + old(acc)@.len())
                            matches Err(e2) && e2 == e);
                    }
                    Err(e)
                },
                Ok(None) => trans_op_doc(scope, sub, j + 1, base, acc),
                Ok(Some(t1)) => {
                    let ghost mid = acc@;
                    match trans_op_doc(scope, sub, j + 1, base, acc) {
                        Err(e) => {
                            proof {
                                assert(params_model(mid).len() == mid.len());
                                assert(spec_op_doc(scope@, sub@, sub@.skip(j as int + 1), base
                                    + mid.len()) matches Err(e2) && e2 == e);
                            }
                            Err(e)
                        },
                        Ok(t2) => {
                            let t = join_str(t1, " AND ", t2);
                            proof {
                                let p1 = spec_op_clause(
                                    scope@,
                                    f.0@,
                                    f.1@,
                                    sub@,
                                    base + old(acc)@.len(),
                                )->Ok_0->Some_0.1;
                                let p2 = spec_op_doc(
                                    scope@,
                                    sub@,
                                    sub@.skip(j as int + 1),
                                    base + mid.len(),
                                )->Ok_0.1;
                                assert(params_model(acc@) =~= params_model(old(acc)@) + (p1 + p2));
                            }
                            Ok(t)
                        },
                    }
                },
            }
        },
    }
}

fn trans_nested(scope: &String, sub: &Document, base: usize, acc: &mut Vec<SqlValue>) -> (r: Result<
    String,
    TranslationError,
>)
    ensures
        match r {
            Ok(t) => spec_nested(scope@, sub@, base + old(acc)@.len()) matches Ok(p) && t@ == p.0
                && params_model(final(acc)@) == params_model(old(acc)@) + p.1,
            Err(e) => spec_nested(scope@, sub@, base + old(acc)@.len()) matches Err(e2) && e == e2,
        },
    decreases sub, sub@.len() + 1,
{
    broadcast use group_value_model;

    let mut op_doc = false;
    if sub.len() > 0 {
        let f0 = sub.field_at(0);
        match first_char(f0.0.as_str()) {
            Some(c0) => {
                if c0 == '$' {
                    op_doc = true;
                }
            },
            None => {},
        }
    }
    if op_doc {
        proof {
            assert(sub@.skip(0) =~= sub@);
        }
        trans_op_doc(scope, sub, 0, base, acc)
    } else {
        proof {
            assert(!is_op_doc(sub@));
            assert(sub@.skip(0) =~= sub@);
        }
        trans_plain_doc(scope, sub, 0, base, acc)
    }
}

fn trans_plain_doc(
    scope: &String,
    sub: &Document,
    j: usize,
    base: usize,
    acc: &mut Vec<SqlValue>,
) -> (r: Result<String, TranslationError>)
    requires
        j <= sub@.len(),
    ensures
        match r {
            Ok(t) => spec_plain_doc(scope@, sub@.skip(j as int), base + old(acc)@.len()) matches Ok(
                p,
            ) && t@ == p.0 && params_model(final(acc)@) == params_model(old(acc)@) + p.1,
            Err(e) => spec_plain_doc(scope@, sub@.skip(j as int), base + old(acc)@.len()) matches
                Err(e2) && e == e2,
        },
    decreases sub, sub@.len() - j,
{
    broadcast use group_value_model;

    if j == sub.len() {
        proof {
            assert(sub@.skip(j as int) =~= Seq::<(Seq<char>, SpecValue)>::empty());
            assert(params_model(acc@) =~= params_model(old(acc)@) + Seq::<SpecSqlValue>::empty());
        }
        return Ok(String::new());
    }
    proof {
        assert(sub@.skip(j as int)[0] == sub@[j as int]);
        assert(sub@.skip(j as int).drop_first() =~= sub@.skip(j as int + 1));
    }
    let f = sub.field_at(j);
    match first_char(f.0.as_str()) {
        Some(c0) => {
            if c0 == '$' {
                return Err(TranslationError::UnsupportedOperator);
            }
        },
        None => {},
    }
    let step: Result<String, TranslationError> = match &f.1 {
        Value::Object(sub2) => {
            proof {
                assert(decreases_to!(*sub => sub.fields));
                assert(decreases_to!(sub.fields => sub.fields@[j as int]));
                assert(decreases_to!(sub.fields@[j as int] => sub.fields@[j as int].1));
            }
            let mut ns = scope.clone();
            ns.append(".");
            ns.append(f.0.as_str());
            trans_nested(&ns, sub2, base, acc)
        },
        Value::Null => {
            let mut ns = scope.clone();
            ns.append(".");
            ns.append(f.0.as_str());
            let mut t = fld_text(ns.as_str());
            t.append(" IS NULL");
            Ok(t)
        },
        Value::Text(_) | Value::Int32(_) | Value::Int64(_) | Value::Bool(_) => {
            let mut ns = scope.clone();
            ns.append(".");
            ns.append(f.0.as_str());
            let mut t = fld_text(ns.as_str());
            t.append(" = ");
            let phs = ph_text(base, acc.len());
            t.append(phs.as_str());
            match value_param(&f.1) {
                Some(p) => {
                    let ghost pm = p@;
                    acc.push(p);
                    proof {
                        assert(params_model(acc@) =~= params_model(old(acc)@) + seq![pm]);
                    }
                    Ok(t)
                },
                None => Err(TranslationError::UnsupportedType),
            }
        },
        _ => Err(TranslationError::UnsupportedType),
    };
    match step {
        Err(e) => Err(e),
        Ok(t1) => {
            let ghost mid = acc@;
            match trans_plain_doc(scope, sub, j + 1, base, acc) {
                Err(e) => {
                    proof {
                        assert(params_model(mid).len() == mid.len());
                        assert(spec_plain_doc(scope@, sub@.skip(j as int + 1), base + mid.len())
                            matches Err(e2) && e2 == e);
                    }
                    Err(e)
                },
                Ok(t2) => {
                    let t = join_str(t1, " AND ", t2);
                    proof {
                        let p2 = spec_plain_doc(scope@, sub@.skip(j as int + 1), base + mid.len())
                            ->Ok_0.1;
                        assert(params_model(acc@) =~= params_model(old(acc)@) + (params_model(
                            mid,
                        ).skip(params_model(old(acc)@).len() as int) + p2));
                    }
                    Ok(t)
                },
            }
        },
    }
}

fn trans_doc_list(
    items: &Vec<Value>,
    j: usize,
    sep: &str,
    base: usize,
    acc: &mut Vec<SqlValue>,
) -> (r: Result<String, TranslationError>)
    requires
        j <= items@.len(),
    ensures
        match r {
            Ok(t) => spec_doc_list(
                crate::value::seq_model(items@).skip(j as int),
                sep@,
                base + old(acc)@.len(),
            ) matches Ok(p) && t@ == p.0 && params_model(final(acc)@) == params_model(old(acc)@)
                + p.1,
            Err(e) => spec_doc_list(
                crate::value::seq_model(items@).skip(j as int),
                sep@,
                base + old(acc)@.len(),
            ) matches Err(e2) && e == e2,
        },
    decreases items, items@.len() - j,
{
    broadcast use group_value_model;

    let ghost m = crate::value::seq_model(items@);
    if j == items.len() {
        proof {
            assert(m.skip(j as int) =~= Seq::<SpecValue>::empty());
            assert(params_model(acc@) =~= params_model(old(acc)@) + Seq::<SpecSqlValue>::empty());
        }
        return Ok(String::new());
    }
    proof {
        assert(m.skip(j as int)[0] == m[j as int]);
        assert(m.skip(j as int).drop_first() =~= m.skip(j as int + 1));
    }
    match &items[j] {
        Value::Object(sd) => {
            proof {
                assert(decreases_to!(*items => items@[j as int]));
            }
            proof {
                assert(sd@.skip(0) =~= sd@);
            }
            match trans_query(sd, 0, base, acc) {
                Err(e) => {
                    proof {
                        assert(spec_query(sd@, base + old(acc)@.len()) matches Err(e2) && e2 == e);
                    }
                    Err(e)
                },
                Ok(t1) => {
                    let ghost mid = acc@;
                    match trans_doc_list(items, j + 1, sep, base, acc) {
                        Err(e) => {
                            proof {
                                assert(params_model(mid).len() == mid.len());
                                assert(spec_doc_list(m.skip(j as int + 1), sep@, base + mid.len())
                                    matches Err(e2) && e2 == e);
                            }
                            Err(e)
                        },
                        Ok(t2) => {
                            let t = join_str(t1, sep, t2);
                            proof {
                                let p1 = spec_query(sd@, base + old(acc)@.len())->Ok_0.1;
                                let p2 = spec_doc_list(m.skip(j as int + 1), sep@, base + mid.len())
                                    ->Ok_0.1;
                                assert(params_model(acc@) =~= params_model(old(acc)@) + (p1 + p2));
                            }
                            Ok(t)
                        },
                    }
                },
            }
        },
        _ => Err(TranslationError::BadOperand),
    }
}

fn trans_field(f: &(String, Value), base: usize, acc: &mut Vec<SqlValue>) -> (r: Result<
    String,
    TranslationError,
>)
    ensures
        match r {
            Ok(t) => spec_field((f.0@, f.1@), base + old(acc)@.len()) matches Ok(p) && t@ == p.0
                && params_model(final(acc)@) == params_model(old(acc)@) + p.1,
            Err(e) => spec_field((f.0@, f.1@), base + old(acc)@.len()) matches Err(e2) && e == e2,
        },
    decreases f, 2int,
{
    broadcast use group_value_model;

    let mut is_dollar = false;
    match first_char(f.0.as_str()) {
        Some(c0) => {
            if c0 == '$' {
                is_dollar = true;
            }
        },
        None => {},
    }
    if is_dollar {
        if str_eq(f.0.as_str(), "$or") {
            match &f.1 {
                Value::Array(items) => {
                    proof {
                        assert(decreases_to!(*f => f.1));
                        assert(crate::value::seq_model(items@).skip(0) =~= crate::value::seq_model(
                            items@,
                        ));
                    }
                    match trans_doc_list(items, 0, " OR ", base, acc) {
                        Err(e) => Err(e),
                        Ok(inner) => {
                            let mut t = String::from_str("(");
                            t.append(inner.as_str());
                            t.append(")");
                            Ok(t)
                        },
                    }
                },
                _ => Err(TranslationError::BadOperand),
            }
        } else if str_eq(f.0.as_str(), "$and") {
            match &f.1 {
                Value::Array(items) => {
                    proof {
                        assert(crate::value::seq_model(items@).skip(0) =~= crate::value::seq_model(
                            items@,
                        ));
                    }
                    match trans_doc_list(items, 0, " AND ", base, acc) {
                        Err(e) => Err(e),
                        Ok(inner) => {
                            let mut t = String::from_str("(");
                            t.append(inner.as_str());
                            t.append(")");
                            Ok(t)
                        },
                    }
                },
                _ => Err(TranslationError::BadOperand),
            }
        } else if str_eq(f.0.as_str(), "$nor") {
            match &f.1 {
                Value::Array(items) => {
                    proof {
                        assert(crate::value::seq_model(items@).skip(0) =~= crate::value::seq_model(
                            items@,
                        ));
                    }
                    match trans_doc_list(items, 0, " OR ", base, acc) {
                        Err(e) => Err(e),
                        Ok(inner) => {
                            let mut t = String::from_str("NOT (");
                            t.append(inner.as_str());
                            t.append(")");
                            Ok(t)
                        },
                    }
                },
                _ => Err(TranslationError::BadOperand),
            }
        } else if str_eq(f.0.as_str(), "$not") {
            match &f.1 {
                Value::Object(sub) => {
                    proof {
                        assert(sub@.skip(0) =~= sub@);
                    }
                    match trans_query(sub, 0, base, acc) {
                        Err(e) => Err(e),
                        Ok(inner) => {
                            let mut t = String::from_str("NOT (");
                            t.append(inner.as_str());
                            t.append(")");
                            Ok(t)
                        },
                    }
                },
                _ => Err(TranslationError::BadOperand),
            }
        } else {
            Err(TranslationError::UnsupportedOperator)
        }
    } else {
        match &f.1 {
            Value::Object(sub) => {
                if str_eq(f.0.as_str(), "_id") {
                    Err(TranslationError::InvalidId)
                } else {
                    trans_nested(&f.0, sub, base, acc)
                }
            },
            Value::Null => {
                if str_eq(f.0.as_str(), "_id") {
                    Err(TranslationError::InvalidId)
                } else {
                    let mut t = fld_text(f.0.as_str());
                    t.append(" IS NULL");
                    Ok(t)
                }
            },
            Value::Int32(i) => {
                if str_eq(f.0.as_str(), "_id") {
                    let mut t = String::from_str("_id = ");
                    let phs = ph_text(base, acc.len());
                    t.append(phs.as_str());
                    let p = SqlValue::Integer(*i as i64);
                    let ghost pm = p@;
                    acc.push(p);
                    proof {
                        assert(params_model(acc@) =~= params_model(old(acc)@) + seq![pm]);
                    }
                    Ok(t)
                } else {
                    let mut t = fld_text(f.0.as_str());
                    t.append(" = ");
                    let phs = ph_text(base, acc.len());
                    t.append(phs.as_str());
                    let p = SqlValue::Integer(*i as i64);
                    let ghost pm = p@;
                    acc.push(p);
                    proof {
                        assert(params_model(acc@) =~= params_model(old(acc)@) + seq![pm]);
                    }
                    Ok(t)
                }
            },
            Value::Int64(i) => {
                if str_eq(f.0.as_str(), "_id") {
                    let mut t = String::from_str("_id = ");
                    let phs = ph_text(base, acc.len());
                    t.append(phs.as_str());
                    let p = SqlValue::Integer(*i);
                    let ghost pm = p@;
                    acc.push(p);
                    proof {
                        assert(params_model(acc@) =~= params_model(old(acc)@) + seq![pm]);
                    }
                    Ok(t)
                } else {
                    let mut t = fld_text(f.0.as_str());
                    t.append(" = ");
                    let phs = ph_text(base, acc.len());
                    t.append(phs.as_str());
                    let p = SqlValue::Integer(*i);
                    let ghost pm = p@;
                    acc.push(p);
                    proof {
                        assert(params_model(acc@) =~= params_model(old(acc)@) + seq![pm]);
                    }
                    Ok(t)
                }
            },
            Value::Text(st) => {
                if str_eq(f.0.as_str(), "_id") {
                    Err(TranslationError::InvalidId)
                } else {
                    let mut t = fld_text(f.0.as_str());
                    t.append(" = ");
                    let phs = ph_text(base, acc.len());
                    t.append(phs.as_str());
                    let p = SqlValue::Text(st.clone());
                    let ghost pm = p@;
                    acc.push(p);
                    proof {
                        assert(params_model(acc@) =~= params_model(old(acc)@) + seq![pm]);
                    }
                    Ok(t)
                }
            },
            Value::Bool(b) => {
                if str_eq(f.0.as_str(), "_id") {
                    Err(TranslationError::InvalidId)
                } else {
                    let mut t = fld_text(f.0.as_str());
                    t.append(" = ");
                    let phs = ph_text(base, acc.len());
                    t.append(phs.as_str());
                    let p = SqlValue::Integer(
                        if *b {
                            1
                        } else {
                            0
                        },
                    );
                    let ghost pm = p@;
                    acc.push(p);
                    proof {
                        assert(params_model(acc@) =~= params_model(old(acc)@) + seq![pm]);
                    }
                    Ok(t)
                }
            },
            _ => Err(TranslationError::UnsupportedType),
        }
    }
}

fn trans_query(q: &Document, j: usize, base: usize, acc: &mut Vec<SqlValue>) -> (r: Result<
    String,
    TranslationError,
>)
    requires
        j <= q@.len(),
    ensures
        match r {
            Ok(t) => spec_query(q@.skip(j as int), base + old(acc)@.len()) matches Ok(p) && t@
                == p.0 && params_model(final(acc)@) == params_model(old(acc)@) + p.1,
            Err(e) => spec_query(q@.skip(j as int), base + old(acc)@.len()) matches Err(e2) && e
                == e2,
        },
    decreases q, q@.len() - j,
{
    broadcast use group_value_model;

    if j == q.len() {
        proof {
            assert(q@.skip(j as int) =~= Seq::<(Seq<char>, SpecValue)>::empty());
            assert(params_model(acc@) =~= params_model(old(acc)@) + Seq::<SpecSqlValue>::empty());
        }
        return Ok(String::new());
    }
    proof {
        assert(q@.skip(j as int)[0] == q@[j as int]);
        assert(q@.skip(j as int).drop_first() =~= q@.skip(j as int + 1));
    }
    let f = q.field_at(j);
    proof {
        assert(decreases_to!(*q => q.fields));
        assert(decreases_to!(q.fields => q.fields@[j as int]));
        assert(q@[j as int] == (q.fields@[j as int].0@, crate::value::value_model(
            q.fields@[j as int].1,
        )));
        assert(q@[j as int] == (f.0@, f.1@));
    }
    match trans_field(f, base, acc) {
        Err(e) => {
            proof {
                assert(spec_field(q@.skip(j as int)[0], base + old(acc)@.len()) matches Err(e2)
                    && e2 == e);
            }
            Err(e)
        },
        Ok(t1) => {
            let ghost mid = acc@;
            match trans_query(q, j + 1, base, acc) {
                Err(e) => {
                    proof {
                        assert(params_model(mid).len() == mid.len());
                        assert(spec_query(q@.skip(j as int + 1), base + mid.len()) matches Err(e2)
                            && e2 == e);
                    }
                    Err(e)
                },
                Ok(t2) => {
                    let t = join_str(t1, " AND ", t2);
                    proof {
                        let p1 = spec_field(q@[j as int], base + old(acc)@.len())->Ok_0.1;
                        let p2 = spec_query(q@.skip(j as int + 1), base + mid.len())->Ok_0.1;
                        assert(params_model(acc@) =~= params_model(old(acc)@) + (p1 + p2));
                    }
                    Ok(t)
                },
            }
        },
    }
}

/// The query compiler.  It carries no state of its own: every translation
/// is a function of the query document alone.
pub struct QueryTranslator {}

impl QueryTranslator {
    /// Compile a query document into a predicate with positional
    /// placeholders, pushing the bound literals onto `params` in the order
    /// they are met on a left-to-right, depth-first walk of the query; the
    /// placeholders count on from the parameters already in `params`.  On
    /// an error, `params` is left exactly as it was.
    pub fn query_document(&self, query: &Document, params: &mut Vec<SqlValue>) -> (r: Result<
        String,
        TranslationError,
    >)
        ensures
            match r {
                Ok(t) => spec_query(query@, old(params)@.len() as int) matches Ok(p) && t@ == p.0
                    && params_model(final(params)@) == params_model(old(params)@) + p.1,
                Err(e) => spec_query(query@, old(params)@.len() as int) matches Err(e2) && e == e2
                    && final(params)@ == old(params)@,
            },
    {
        let base = params.len();
        let mut acc: Vec<SqlValue> = Vec::new();
        proof {
            assert(query@.skip(0) =~= query@);
        }
        match trans_query(query, 0, base, &mut acc) {
            Err(e) => Err(e),
            Ok(t) => {
                let ghost accm = acc@;
                params.append(&mut acc);
                proof {
                    assert(params_model(params@) =~= params_model(old(params)@) + params_model(
                        accm,
                    ));
                    assert(params_model(accm) =~= params_model(Seq::<SqlValue>::empty())
                        + params_model(accm));
                }
                Ok(t)
            },
        }
    }
}

} // verus!
