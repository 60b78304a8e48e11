use vstd::prelude::*;
use crate::value::{Document, SpecValue, Value};
use crate::codec::{CodecError, dec_doc, decode, encode};
use crate::numfmt::{i64_to_dec, spec_idec};
use crate::patch::{PatchError, spec_validate_update, validate_update};
use crate::query_translator::{
    QueryTranslator,
    SqlValue,
    TranslationError,
    spec_query,
};
use crate::sqlite::{
    exec_sql,
    query_count,
    query_index_rows,
    query_opt_row,
    query_rows,
    slug,
    slug_of,
};
use vstd::string::{StringExecFns, StrSliceExecFns};

verus! {

/// Bounds for read operations: `limit` of `-1` means unbounded; `skip`
/// rows are passed over first.
#[derive(Debug, Clone, Copy)]
pub struct SearchOption {
    pub limit: i64,
    pub skip: i64,
}

impl SearchOption {
    pub fn default() -> (r: SearchOption)
        ensures
            r.limit == -1 && r.skip == 0,
    {
        SearchOption { limit: -1, skip: 0 }
    }

    pub fn limit(self, arg: i64) -> (r: SearchOption)
        ensures
            r.limit == arg && r.skip == self.skip,
    {
        SearchOption { limit: arg, ..self }
    }

    pub fn skip(self, arg: i64) -> (r: SearchOption)
        ensures
            r.skip == arg && r.limit == self.limit,
    {
        SearchOption { skip: arg, ..self }
    }
}

/// A collection's shape, fixed when the collection is created: its name,
/// the table behind it, and whether the store keeps a content hash and a
/// modification time per row.
#[derive(Debug)]
pub struct CollectionConfig {
    pub name: String,
    pub table_name: String,
    pub should_hash_document: bool,
    pub should_log_last_modified: bool,
    pub should_hash_unique: bool,
}

impl CollectionConfig {
    pub fn default(name: &str) -> (r: CollectionConfig)
        ensures
            r.name@ == name@ && r.table_name@ == name@ && r.should_hash_document
                && r.should_log_last_modified && !r.should_hash_unique,
    {
        CollectionConfig {
            name: String::from_str(name),
            table_name: String::from_str(name),
            should_hash_document: true,
            should_log_last_modified: true,
            should_hash_unique: false,
        }
    }

    pub fn hash_document(self, arg: bool) -> (r: CollectionConfig)
        ensures
            r.should_hash_document == arg && r.name@ == self.name@ && r.table_name@
                == self.table_name@ && r.should_log_last_modified
                == self.should_log_last_modified && r.should_hash_unique
                == self.should_hash_unique,
    {
        CollectionConfig { should_hash_document: arg, ..self }
    }

    pub fn log_last_modified(self, arg: bool) -> (r: CollectionConfig)
        ensures
            r.should_log_last_modified == arg && r.name@ == self.name@ && r.table_name@
                == self.table_name@ && r.should_hash_document == self.should_hash_document
                && r.should_hash_unique == self.should_hash_unique,
    {
        CollectionConfig { should_log_last_modified: arg, ..self }
    }

    pub fn hash_unique(self, arg: bool) -> (r: CollectionConfig)
        ensures
            r.should_hash_unique == arg && r.name@ == self.name@ && r.table_name@
                == self.table_name@ && r.should_hash_document == self.should_hash_document
                && r.should_log_last_modified == self.should_log_last_modified,
    {
        CollectionConfig { should_hash_unique: arg, ..self }
    }
}

/// A deep copy of a configuration.
pub fn clone_config(c: &CollectionConfig) -> (r: CollectionConfig)
    ensures
        r.name@ == c.name@,
        r.table_name@ == c.table_name@,
        r.should_hash_document == c.should_hash_document,
        r.should_log_last_modified == c.should_log_last_modified,
        r.should_hash_unique == c.should_hash_unique,
{
    CollectionConfig {
        name: c.name.clone(),
        table_name: c.table_name.clone(),
        should_hash_document: c.should_hash_document,
        should_log_last_modified: c.should_log_last_modified,
        should_hash_unique: c.should_hash_unique,
    }
}

/// One index on a collection's table, as the store reports it.
#[derive(Debug, PartialEq)]
pub struct Index {
    pub seq: i64,
    pub name: String,
    pub is_unique: bool,
    pub index_type: String,
    pub is_partial: bool,
}

/// One stored document with its row identity and, where the collection
/// keeps them, its content hash and last-modified time.
#[derive(Debug, PartialEq)]
pub struct Record {
    pub id: i64,
    pub data: Document,
    pub hash: String,
    pub last_modified: String,
}

/// One raw row as the backing store hands it out: the row id, the document
/// blob, and up to two extra columns whose meaning the collection's
/// configuration decides.
#[derive(Debug)]
pub struct RawRow {
    pub id: i64,
    pub raw: Vec<u8>,
    pub extra1: Option<String>,
    pub extra2: Option<String>,
}

/// One catalog row: a registered collection and its shape.
#[derive(Debug)]
pub struct CatalogRow {
    pub collection: String,
    pub table_name: String,
    pub hash_document: bool,
    pub log_last_modified: bool,
}

/// Everything an operation can fail with, kept apart so a caller can tell
/// an invalid query from a valid query with no data.
#[derive(Debug, PartialEq)]
pub enum DbError {
    /// The query document was rejected by the translator.
    Translation(TranslationError),
    /// The update document was rejected by the patch engine.
    Patch(PatchError),
    /// A stored blob did not decode: storage corruption.
    Codec(CodecError),
    /// The backing store reported a failure.
    Storage(String),
    /// No matching record where exactly one was required.
    NotFound,
    /// A row callback asked the scan to stop.
    Callback(String),
}

/// A record agrees with its collection's shape: without the hash feature
/// its hash is empty.
pub open spec fn rec_matches_config(rec: Record, config: CollectionConfig) -> bool {
    !config.should_hash_document ==> rec.hash@.len() == 0
}

/// Turn one raw row into a record under a collection's shape: the blob is
/// decoded, and the extra columns are read as hash and modification time
/// exactly as the configuration laid them out.
pub fn decode_row(row: &RawRow, config: &CollectionConfig) -> (r: Result<Record, DbError>)
    ensures
        match r {
            Ok(rec) => {
                &&& dec_doc(row.raw@) matches Some(sd) && rec.data@ == sd
                &&& rec.id == row.id
                &&& config.should_hash_document ==> rec.hash@ == (match row.extra1 {
                    Some(h) => h@,
                    None => Seq::<char>::empty(),
                })
                &&& !config.should_hash_document ==> rec.hash@.len() == 0
                &&& config.should_log_last_modified ==> rec.last_modified@ == (match (
                if config.should_hash_document {
                    row.extra2
                } else {
                    row.extra1
                }) {
                    Some(m) => m@,
                    None => Seq::<char>::empty(),
                })
                &&& !config.should_log_last_modified ==> rec.last_modified@.len() == 0
                &&& rec_matches_config(rec, *config)
            },
            Err(e) => dec_doc(row.raw@) is None && e matches DbError::Codec(_),
        },
{
    let data = match decode(&row.raw) {
        Ok(d) => d,
        Err(e) => {
            return Err(DbError::Codec(e));
        },
    };
    let hash = if config.should_hash_document {
        match &row.extra1 {
            Some(h) => h.clone(),
            None => String::new(),
        }
    } else {
        String::new()
    };
    let last_modified = if config.should_log_last_modified {
        if config.should_hash_document {
            match &row.extra2 {
                Some(m) => m.clone(),
                None => String::new(),
            }
        } else {
            match &row.extra1 {
                Some(m) => m.clone(),
                None => String::new(),
            }
        }
    } else {
        String::new()
    };
    Ok(Record { id: row.id, data, hash, last_modified })
}

/// `WHERE w`, or nothing for an empty predicate.
pub open spec fn spec_where(w: Seq<char>) -> Seq<char> {
    if w.len() == 0 {
        Seq::<char>::empty()
    } else {
        "WHERE "@ + w
    }
}

fn where_text(w: &String) -> (t: String)
    ensures
        t@ == spec_where(w@),
{
    if w.as_str().is_empty() {
        String::new()
    } else {
        let mut t = String::from_str("WHERE ");
        t.append(w.as_str());
        t
    }
}

/// `LIMIT l OFFSET s`.
pub open spec fn spec_limit_offset(limit: int, skip: int) -> Seq<char> {
    "LIMIT "@ + spec_idec(limit) + " OFFSET "@ + spec_idec(skip)
}

fn limit_offset_text(limit: i64, skip: i64) -> (t: String)
    ensures
        t@ == spec_limit_offset(limit as int, skip as int),
{
    let mut t = String::from_str("LIMIT ");
    let l = i64_to_dec(limit);
    t.append(l.as_str());
    t.append(" OFFSET ");
    let s = i64_to_dec(skip);
    t.append(s.as_str());
    t
}

/// `OFFSET s`, or nothing when `s` is zero.
pub open spec fn spec_offset(skip: int) -> Seq<char> {
    if skip == 0 {
        Seq::<char>::empty()
    } else {
        "OFFSET "@ + spec_idec(skip)
    }
}

fn offset_text(skip: i64) -> (t: String)
    ensures
        t@ == spec_offset(skip as int),
{
    if skip == 0 {
        String::new()
    } else {
        let mut t = String::from_str("OFFSET ");
        let s = i64_to_dec(skip);
        t.append(s.as_str());
        t
    }
}

/// The row scan behind `find`.
pub open spec fn spec_select_sql(name: Seq<char>, w: Seq<char>, opt: Seq<char>) -> Seq<char> {
    "SELECT * FROM ["@ + name + "] "@ + spec_where(w) + " "@ + opt + ";"@
}

fn select_sql(name: &String, w: &String, opt: &String) -> (t: String)
    ensures
        t@ == spec_select_sql(name@, w@, opt@),
{
    let mut t = String::from_str("SELECT * FROM [");
    t.append(name.as_str());
    t.append("] ");
    let wt = where_text(w);
    t.append(wt.as_str());
    t.append(" ");
    t.append(opt.as_str());
    t.append(";");
    t
}

/// The single-row lookup behind `find_one`.
pub open spec fn spec_select_one_sql(name: Seq<char>, w: Seq<char>, skip: int) -> Seq<char> {
    "SELECT * FROM ["@ + name + "] "@ + spec_where(w) + " LIMIT 1 "@ + spec_offset(skip) + ";"@
}

fn select_one_sql(name: &String, w: &String, skip: i64) -> (t: String)
    ensures
        t@ == spec_select_one_sql(name@, w@, skip as int),
{
    let mut t = String::from_str("SELECT * FROM [");
    t.append(name.as_str());
    t.append("] ");
    let wt = where_text(w);
    t.append(wt.as_str());
    t.append(" LIMIT 1 ");
    let ot = offset_text(skip);
    t.append(ot.as_str());
    t.append(";");
    t
}

/// The single-row delete behind `delete_one` and `find_one_and_delete`.
pub open spec fn spec_delete_one_sql(name: Seq<char>, w: Seq<char>, returning: bool) -> Seq<char> {
    "DELETE FROM ["@ + name + "] WHERE _id = (SELECT _id FROM ["@ + name + "] "@ + spec_where(w)
        + " LIMIT 1)"@ + (
    if returning {
        " RETURNING *"@
    } else {
        Seq::<char>::empty()
    }) + ";"@
}

fn delete_one_sql(name: &String, w: &String, returning: bool) -> (t: String)
    ensures
        t@ == spec_delete_one_sql(name@, w@, returning),
{
    let mut t = String::from_str("DELETE FROM [");
    t.append(name.as_str());
    t.append("] WHERE _id = (SELECT _id FROM [");
    t.append(name.as_str());
    t.append("] ");
    let wt = where_text(w);
    t.append(wt.as_str());
    t.append(" LIMIT 1)");
    if returning {
        t.append(" RETURNING *");
    }
    t.append(";");
    t
}

/// Scan the matching rows in storage order (or as `options` bounds them)
/// and hand back the decoded records.
pub fn find_internal(
    conn: &rusqlite::Connection,
    config: &CollectionConfig,
    query: &Document,
    options: &Option<SearchOption>,
) -> (r: Result<Vec<Record>, DbError>)
    ensures
        spec_query(query@, 0) matches Err(te) ==> r == Err::<Vec<Record>, DbError>(
            DbError::Translation(te),
        ),
        r matches Err(e) ==> (e matches DbError::Translation(te2) ==> spec_query(query@, 0)
            == Err::<(Seq<char>, Seq<crate::query_translator::SpecSqlValue>), TranslationError>(
            te2,
        )),
        r matches Ok(recs) ==> spec_query(query@, 0) is Ok && forall|i: int|
            0 <= i < recs@.len() ==> rec_matches_config(#[trigger] recs@[i], *config),
{
    let mut params: Vec<SqlValue> = Vec::new();
    let w = match (QueryTranslator {}).query_document(query, &mut params) {
        Ok(w) => w,
        Err(e) => {
            return Err(DbError::Translation(e));
        },
    };
    let opt = match options {
        Some(o) => limit_offset_text(o.limit, o.skip),
        None => String::new(),
    };
    let sql = select_sql(&config.name, &w, &opt);
    let rows = match query_rows(conn, sql.as_str(), &params) {
        Ok(rows) => rows,
        Err(e) => {
            return Err(DbError::Storage(e));
        },
    };
    let mut recs: Vec<Record> = Vec::new();
    let n = rows.len();
    for i in 0..n
        invariant
            n == rows@.len(),
            spec_query(query@, 0) is Ok,
            forall|j: int| 0 <= j < recs@.len() ==> rec_matches_config(#[trigger] recs@[j], *config),
    {
        match decode_row(&rows[i], config) {
            Ok(rec) => {
                recs.push(rec);
            },
            Err(e) => {
                return Err(e);
            },
        }
    }
    Ok(recs)
}

/// The first match after `skip` rows; `NotFound` when none.
pub fn find_one_internal(
    conn: &rusqlite::Connection,
    config: &CollectionConfig,
    query: &Document,
    skip: i64,
) -> (r: Result<Record, DbError>)
    ensures
        spec_query(query@, 0) matches Err(te) ==> r == Err::<Record, DbError>(
            DbError::Translation(te),
        ),
        r matches Err(e) ==> (e matches DbError::Translation(te2) ==> spec_query(query@, 0)
            == Err::<(Seq<char>, Seq<crate::query_translator::SpecSqlValue>), TranslationError>(
            te2,
        )),
        r matches Ok(rec) ==> spec_query(query@, 0) is Ok && rec_matches_config(rec, *config),
{
    let mut params: Vec<SqlValue> = Vec::new();
    let w = match (QueryTranslator {}).query_document(query, &mut params) {
        Ok(w) => w,
        Err(e) => {
            return Err(DbError::Translation(e));
        },
    };
    let sql = select_one_sql(&config.name, &w, skip);
    match query_opt_row(conn, sql.as_str(), &params) {
        Ok(Some(row)) => decode_row(&row, config),
        Ok(None) => Err(DbError::NotFound),
        Err(e) => Err(DbError::Storage(e)),
    }
}

/// Atomically select one match and delete it, handing back its prior state.
pub fn find_one_and_delete_internal(
    conn: &rusqlite::Connection,
    config: &CollectionConfig,
    query: &Document,
) -> (r: Result<Option<Record>, DbError>)
    ensures
        spec_query(query@, 0) matches Err(te) ==> r == Err::<Option<Record>, DbError>(
            DbError::Translation(te),
        ),
        r matches Err(e) ==> (e matches DbError::Translation(te2) ==> spec_query(query@, 0)
            == Err::<(Seq<char>, Seq<crate::query_translator::SpecSqlValue>), TranslationError>(
            te2,
        )),
        match r {
            Ok(recopt) => spec_query(query@, 0) is Ok && match recopt {
                Some(rec) => rec_matches_config(rec, *config),
                None => true,
            },
            Err(_) => true,
        },
{
    let mut params: Vec<SqlValue> = Vec::new();
    let w = match (QueryTranslator {}).query_document(query, &mut params) {
        Ok(w) => w,
        Err(e) => {
            return Err(DbError::Translation(e));
        },
    };
    let sql = delete_one_sql(&config.name, &w, true);
    match query_opt_row(conn, sql.as_str(), &params) {
        Ok(Some(row)) => match decode_row(&row, config) {
            Ok(rec) => Ok(Some(rec)),
            Err(e) => Err(e),
        },
        Ok(None) => Ok(None),
        Err(e) => Err(DbError::Storage(e)),
    }
}

/// How many rows match, within `options`' bounds.
pub fn count_documents_internal(
    conn: &rusqlite::Connection,
    config: &CollectionConfig,
    query: &Document,
    options: &Option<SearchOption>,
) -> (r: Result<i64, DbError>)
    ensures
        spec_query(query@, 0) matches Err(te) ==> r == Err::<i64, DbError>(
            DbError::Translation(te),
        ),
        r matches Err(e) ==> (e matches DbError::Translation(te2) ==> spec_query(query@, 0)
            == Err::<(Seq<char>, Seq<crate::query_translator::SpecSqlValue>), TranslationError>(
            te2,
        )),
        r matches Ok(_) ==> spec_query(query@, 0) is Ok,
{
    let mut params: Vec<SqlValue> = Vec::new();
    let w = match (QueryTranslator {}).query_document(query, &mut params) {
        Ok(w) => w,
        Err(e) => {
            return Err(DbError::Translation(e));
        },
    };
    let opt = match options {
        Some(o) => limit_offset_text(o.limit, o.skip),
        None => String::new(),
    };
    let mut sql = String::from_str("SELECT COUNT(1) FROM [");
    sql.append(config.name.as_str());
    sql.append("] ");
    let wt = where_text(&w);
    sql.append(wt.as_str());
    sql.append(" ");
    sql.append(opt.as_str());
    sql.append(";");
    match query_count(conn, sql.as_str(), &params) {
        Ok(c) => Ok(c),
        Err(e) => Err(DbError::Storage(e)),
    }
}

/// The single field an index descriptor names, with its order: nested
/// documents dot-extend the path, and the order must be `1` or `-1`.
pub open spec fn spec_translate_index(fields: crate::value::SpecDoc, scope: Seq<char>) -> Option<
    (Seq<char>, int),
>
    decreases fields, 0int,
    via spec_translate_index_dec
{
    if fields.len() == 0 {
        None
    } else {
        match fields[0].1 {
            SpecValue::Object(sub) => spec_translate_index(sub, scope + fields[0].0 + "."@),
            SpecValue::Int32(o) => if o == 1 || o == -1 {
                Some((scope + fields[0].0, o as int))
            } else {
                None
            },
            SpecValue::Int64(o) => if o == 1 || o == -1 {
                Some((scope + fields[0].0, o as int))
            } else {
                None
            },
            _ => None,
        }
    }
}

#[via_fn]
proof fn spec_translate_index_dec(fields: crate::value::SpecDoc, scope: Seq<char>) {
    if fields.len() > 0 {
        assert(decreases_to!(fields => fields[0]));
        assert(decreases_to!(fields[0] => fields[0].1));
        match fields[0].1 {
            SpecValue::Object(sub) => {
                assert(decreases_to!(fields[0].1 => sub));
            },
            _ => {},
        }
    }
}

fn translate_index_config(config: &Document, scope: &String) -> (r: Result<(String, i64), DbError>)
    ensures
        match r {
            Ok(p) => spec_translate_index(config@, scope@) == Some((p.0@, p.1 as int)) && (p.1 == 1
                || p.1 == -1),
            Err(e) => spec_translate_index(config@, scope@) is None && e == DbError::Translation(
                TranslationError::BadOperand,
            ),
        },
    decreases config,
{
    broadcast use crate::value::group_value_model;

    if config.len() == 0 {
        return Err(DbError::Translation(TranslationError::BadOperand));
    }
    let f = config.field_at(0);
    match &f.1 {
        Value::Object(sub) => {
            proof {
                assert(decreases_to!(*config => config.fields));
                assert(decreases_to!(config.fields => config.fields@[0]));
                assert(decreases_to!(config.fields@[0] => config.fields@[0].1));
            }
            let mut ns = scope.clone();
            ns.append(f.0.as_str());
            ns.append(".");
            translate_index_config(sub, &ns)
        },
        Value::Int32(o) => {
            if *o == 1 || *o == -1 {
                let mut p = scope.clone();
                p.append(f.0.as_str());
                Ok((p, *o as i64))
            } else {
                Err(DbError::Translation(TranslationError::BadOperand))
            }
        },
        Value::Int64(o) => {
            if *o == 1 || *o == -1 {
                let mut p = scope.clone();
                p.append(f.0.as_str());
                Ok((p, *o))
            } else {
                Err(DbError::Translation(TranslationError::BadOperand))
            }
        },
        _ => Err(DbError::Translation(TranslationError::BadOperand)),
    }
}

/// The index creation statement: the index covers the extractor applied to
/// the named path, and `IF NOT EXISTS` makes the call idempotent.
pub open spec fn spec_create_index_sql(
    name: Seq<char>,
    idx: Seq<char>,
    path: Seq<char>,
    order: int,
    is_unique: bool,
) -> Seq<char> {
    "CREATE "@ + (
    if is_unique {
        "UNIQUE "@
    } else {
        Seq::<char>::empty()
    }) + "INDEX IF NOT EXISTS "@ + idx + " ON ["@ + name + "](json_field('"@ + path + "', raw) "@
        + (
    if order == 1 {
        "ASC"@
    } else {
        "DESC"@
    }) + ");"@
}

/// Create an index over one extracted field; creating it twice is a no-op
/// by construction of the statement, never an error.
pub fn create_index_internal(
    conn: &rusqlite::Connection,
    config: &CollectionConfig,
    index_config: &Document,
    is_unique: bool,
) -> (r: Result<(), DbError>)
    ensures
        spec_translate_index(index_config@, Seq::<char>::empty()) is None ==> r == Err::<
            (),
            DbError,
        >(DbError::Translation(TranslationError::BadOperand)),
        r matches Err(e) ==> (e matches DbError::Translation(te) ==> spec_translate_index(
            index_config@,
            Seq::<char>::empty(),
        ) is None && te == TranslationError::BadOperand),
{
    let empty_scope = String::new();
    let (path, order) = match translate_index_config(index_config, &empty_scope) {
        Ok(p) => p,
        Err(e) => {
            return Err(e);
        },
    };
    let mut raw_name = path.clone();
    raw_name.append("_");
    let idx_name = slug(raw_name.as_str());
    let mut sql = String::from_str("CREATE ");
    if is_unique {
        sql.append("UNIQUE ");
    }
    sql.append("INDEX IF NOT EXISTS ");
    sql.append(idx_name.as_str());
    sql.append(" ON [");
    sql.append(config.name.as_str());
    sql.append("](json_field('");
    sql.append(path.as_str());
    sql.append("', raw) ");
    if order == 1 {
        sql.append("ASC");
    } else {
        sql.append("DESC");
    }
    sql.append(");");
    proof {
        assert(sql@ == spec_create_index_sql(
            config.name@,
            slug_of(path@ + "_"@),
            path@,
            order as int,
            is_unique,
        ));
    }
    let params: Vec<SqlValue> = Vec::new();
    match exec_sql(conn, sql.as_str(), &params) {
        Ok(_) => Ok(()),
        Err(e) => Err(DbError::Storage(e)),
    }
}

/// Delete the first matching row; the count of deleted rows comes back.
pub fn delete_one_internal(
    conn: &rusqlite::Connection,
    config: &CollectionConfig,
    query: &Document,
) -> (r: Result<usize, DbError>)
    ensures
        spec_query(query@, 0) matches Err(te) ==> r == Err::<usize, DbError>(
            DbError::Translation(te),
        ),
        r matches Err(e) ==> (e matches DbError::Translation(te2) ==> spec_query(query@, 0)
            == Err::<(Seq<char>, Seq<crate::query_translator::SpecSqlValue>), TranslationError>(
            te2,
        )),
        r matches Ok(_) ==> spec_query(query@, 0) is Ok,
{
    let mut params: Vec<SqlValue> = Vec::new();
    let w = match (QueryTranslator {}).query_document(query, &mut params) {
        Ok(w) => w,
        Err(e) => {
            return Err(DbError::Translation(e));
        },
    };
    let sql = delete_one_sql(&config.name, &w, false);
    match exec_sql(conn, sql.as_str(), &params) {
        Ok(c) => Ok(c),
        Err(e) => Err(DbError::Storage(e)),
    }
}

/// How many rows the most recent statement on this connection touched.
pub fn changes_internal(conn: &rusqlite::Connection) -> (r: Result<i64, DbError>) {
    let params: Vec<SqlValue> = Vec::new();
    match query_count(conn, "SELECT changes();", &params) {
        Ok(c) => Ok(c),
        Err(e) => Err(DbError::Storage(e)),
    }
}

/// Delete every matching row; the count comes back.
pub fn delete_many_internal(
    conn: &rusqlite::Connection,
    config: &CollectionConfig,
    query: &Document,
) -> (r: Result<usize, DbError>)
    ensures
        spec_query(query@, 0) matches Err(te) ==> r == Err::<usize, DbError>(
            DbError::Translation(te),
        ),
        r matches Err(e) ==> (e matches DbError::Translation(te2) ==> spec_query(query@, 0)
            == Err::<(Seq<char>, Seq<crate::query_translator::SpecSqlValue>), TranslationError>(
            te2,
        )),
        r matches Ok(_) ==> spec_query(query@, 0) is Ok,
{
    let mut params: Vec<SqlValue> = Vec::new();
    let w = match (QueryTranslator {}).query_document(query, &mut params) {
        Ok(w) => w,
        Err(e) => {
            return Err(DbError::Translation(e));
        },
    };
    let mut sql = String::from_str("DELETE FROM [");
    sql.append(config.name.as_str());
    sql.append("] ");
    let wt = where_text(&w);
    sql.append(wt.as_str());
    sql.append(";");
    match exec_sql(conn, sql.as_str(), &params) {
        Ok(c) => Ok(c),
        Err(e) => Err(DbError::Storage(e)),
    }
}

/// How many distinct values the extractor reports for `field` over the
/// matching rows.
pub fn distinct_internal(
    conn: &rusqlite::Connection,
    config: &CollectionConfig,
    field: &str,
    query: &Option<Document>,
    options: &Option<SearchOption>,
) -> (r: Result<i64, DbError>)
    ensures
        match query {
            Some(q) => spec_query(q@, 0) matches Err(te) ==> r == Err::<i64, DbError>(
                DbError::Translation(te),
            ),
            None => true,
        },
        r matches Err(e) ==> (e matches DbError::Translation(te2) ==> query matches Some(q2)
            && spec_query(q2@, 0) == Err::<
            (Seq<char>, Seq<crate::query_translator::SpecSqlValue>),
            TranslationError,
        >(te2)),
{
    let mut params: Vec<SqlValue> = Vec::new();
    let w = match query {
        Some(q) => match (QueryTranslator {}).query_document(q, &mut params) {
            Ok(w) => w,
            Err(e) => {
                return Err(DbError::Translation(e));
            },
        },
        None => String::new(),
    };
    let opt = match options {
        Some(o) => limit_offset_text(o.limit, o.skip),
        None => String::new(),
    };
    let mut sql = String::from_str("SELECT COUNT(DISTINCT json_field('");
    sql.append(field);
    sql.append("', raw)) FROM [");
    sql.append(config.name.as_str());
    sql.append("] ");
    let wt = where_text(&w);
    sql.append(wt.as_str());
    sql.append(" ");
    sql.append(opt.as_str());
    sql.append(";");
    match query_count(conn, sql.as_str(), &params) {
        Ok(c) => Ok(c),
        Err(e) => Err(DbError::Storage(e)),
    }
}

/// Drop an index by name; dropping an unknown index is a no-op.
pub fn drop_index_internal(
    conn: &rusqlite::Connection,
    config: &CollectionConfig,
    index_name: &str,
) -> (r: Result<(), DbError>) {
    let mut sql = String::from_str("DROP INDEX IF EXISTS ");
    sql.append(index_name);
    sql.append(" ;");
    let params: Vec<SqlValue> = Vec::new();
    match exec_sql(conn, sql.as_str(), &params) {
        Ok(_) => Ok(()),
        Err(e) => Err(DbError::Storage(e)),
    }
}

/// The indexes defined on the collection's table, as the store lists them.
pub fn get_indexes_internal(conn: &rusqlite::Connection, config: &CollectionConfig) -> (r: Result<
    Vec<Index>,
    DbError,
>) {
    let mut sql = String::from_str("SELECT * FROM pragma_index_list('");
    sql.append(config.name.as_str());
    sql.append("');");
    match query_index_rows(conn, sql.as_str()) {
        Ok(v) => Ok(v),
        Err(e) => Err(DbError::Storage(e)),
    }
}

/// The insert statement: the blob is always bound, never spliced, and the
/// store stamps the modification time itself when the collection logs it.
pub open spec fn spec_insert_sql(name: Seq<char>, log: bool, returning: bool) -> Seq<char> {
    "INSERT INTO ["@ + name + "] (raw"@ + (
    if log {
        ", _last_modified"@
    } else {
        Seq::<char>::empty()
    }) + ") VALUES (?1"@ + (
    if log {
        ", datetime('now')"@
    } else {
        Seq::<char>::empty()
    }) + ")"@ + (
    if returning {
        " RETURNING *"@
    } else {
        Seq::<char>::empty()
    }) + ";"@
}

fn insert_sql(name: &String, log: bool, returning: bool) -> (t: String)
    ensures
        t@ == spec_insert_sql(name@, log, returning),
{
    let mut t = String::from_str("INSERT INTO [");
    t.append(name.as_str());
    t.append("] (raw");
    if log {
        t.append(", _last_modified");
    }
    t.append(") VALUES (?1");
    if log {
        t.append(", datetime('now')");
    }
    t.append(")");
    if returning {
        t.append(" RETURNING *");
    }
    t.append(";");
    t
}

/// Encode and store one document; the stored row comes back with its
/// generated id and, per configuration, hash and modification time.
pub fn insert_one_internal(
    conn: &rusqlite::Connection,
    config: &CollectionConfig,
    document: &Document,
) -> (r: Result<Option<Record>, DbError>)
    ensures
        match r {
            Ok(recopt) => match recopt {
                Some(rec) => rec_matches_config(rec, *config),
                None => true,
            },
            Err(_) => true,
        },
{
    let bytes = encode(document);
    let mut params: Vec<SqlValue> = Vec::new();
    params.push(SqlValue::Blob(bytes));
    let sql = insert_sql(&config.name, config.should_log_last_modified, true);
    match query_opt_row(conn, sql.as_str(), &params) {
        Ok(Some(row)) => match decode_row(&row, config) {
            Ok(rec) => Ok(Some(rec)),
            Err(e) => Err(e),
        },
        Ok(None) => Ok(None),
        Err(e) => Err(DbError::Storage(e)),
    }
}

/// Store a batch of documents as one unit: either all of them land or none
/// do.  The unit is a savepoint, so the batch also works inside an open
/// transaction and simply joins it.
pub fn insert_many_internal(
    conn: &rusqlite::Connection,
    config: &CollectionConfig,
    documents: &Vec<Document>,
) -> (r: Result<(), DbError>) {
    let no_params: Vec<SqlValue> = Vec::new();
    match exec_sql(conn, "SAVEPOINT insertmany;", &no_params) {
        Ok(_) => {},
        Err(e) => {
            return Err(DbError::Storage(e));
        },
    }
    let sql = insert_sql(&config.name, config.should_log_last_modified, false);
    let n = documents.len();
    for i in 0..n
        invariant
            n == documents@.len(),
    {
        let bytes = encode(&documents[i]);
        let mut params: Vec<SqlValue> = Vec::new();
        params.push(SqlValue::Blob(bytes));
        match exec_sql(conn, sql.as_str(), &params) {
            Ok(_) => {},
            Err(e) => {
                let _ = exec_sql(conn, "ROLLBACK TO insertmany;", &no_params);
                let _ = exec_sql(conn, "RELEASE insertmany;", &no_params);
                return Err(DbError::Storage(e));
            },
        }
    }
    match exec_sql(conn, "RELEASE insertmany;", &no_params) {
        Ok(_) => Ok(()),
        Err(e) => Err(DbError::Storage(e)),
    }
}

/// Rebuild the collection's indexes.
pub fn reindex_internal(conn: &rusqlite::Connection, config: &CollectionConfig) -> (r: Result<
    (),
    DbError,
>) {
    let mut sql = String::from_str("REINDEX [");
    sql.append(config.name.as_str());
    sql.append("];");
    let params: Vec<SqlValue> = Vec::new();
    match exec_sql(conn, sql.as_str(), &params) {
        Ok(_) => Ok(()),
        Err(e) => Err(DbError::Storage(e)),
    }
}

/// The whole-document replacement statement.
pub open spec fn spec_replace_sql(name: Seq<char>, log: bool, w: Seq<char>, skip: int) -> Seq<
    char,
> {
    "UPDATE ["@ + name + "] SET raw=?1"@ + (
    if log {
        ", _last_modified = datetime('now')"@
    } else {
        Seq::<char>::empty()
    }) + " WHERE _id = (SELECT _id FROM ["@ + name + "] "@ + spec_where(w) + " LIMIT 1 "@
        + spec_offset(skip) + ") RETURNING *;"@
}

/// Replace the first matching document wholesale with `replacement`.
pub fn replace_one_internal(
    conn: &rusqlite::Connection,
    config: &CollectionConfig,
    query: &Document,
    replacement: &Document,
    skip: i64,
) -> (r: Result<Option<Record>, DbError>)
    ensures
        spec_query(query@, 1) matches Err(te) ==> r == Err::<Option<Record>, DbError>(
            DbError::Translation(te),
        ),
        r matches Err(e) ==> (e matches DbError::Translation(te2) ==> spec_query(query@, 1)
            == Err::<(Seq<char>, Seq<crate::query_translator::SpecSqlValue>), TranslationError>(
            te2,
        )),
        match r {
            Ok(recopt) => match recopt {
                Some(rec) => rec_matches_config(rec, *config),
                None => true,
            },
            Err(_) => true,
        },
{
    let bytes = encode(replacement);
    let mut params: Vec<SqlValue> = Vec::new();
    params.push(SqlValue::Blob(bytes));
    let w = match (QueryTranslator {}).query_document(query, &mut params) {
        Ok(w) => w,
        Err(e) => {
            return Err(DbError::Translation(e));
        },
    };
    let mut sql = String::from_str("UPDATE [");
    sql.append(config.name.as_str());
    sql.append("] SET raw=?1");
    if config.should_log_last_modified {
        sql.append(", _last_modified = datetime('now')");
    }
    sql.append(" WHERE _id = (SELECT _id FROM [");
    sql.append(config.name.as_str());
    sql.append("] ");
    let wt = where_text(&w);
    sql.append(wt.as_str());
    sql.append(" LIMIT 1 ");
    let ot = offset_text(skip);
    sql.append(ot.as_str());
    sql.append(") RETURNING *;");
    proof {
        assert(sql@ == spec_replace_sql(
            config.name@,
            config.should_log_last_modified,
            w@,
            skip as int,
        ));
    }
    match query_opt_row(conn, sql.as_str(), &params) {
        Ok(Some(row)) => match decode_row(&row, config) {
            Ok(rec) => Ok(Some(rec)),
            Err(e) => Err(e),
        },
        Ok(None) => Ok(None),
        Err(e) => Err(DbError::Storage(e)),
    }
}

/// Patch the first matching document through the store's `json_patch`; with
/// `upsert`, a fresh document derived from the update operators is inserted
/// when nothing matches.  A malformed update document is rejected as a
/// `PatchError` before any statement reaches the store.
pub fn update_one_internal(
    conn: &rusqlite::Connection,
    config: &CollectionConfig,
    query: &Document,
    update: &Document,
    skip: i64,
    upsert: bool,
) -> (r: Result<Option<Record>, DbError>)
    ensures
        spec_validate_update(update@) matches Err(pe) ==> r == Err::<Option<Record>, DbError>(
            DbError::Patch(pe),
        ),
        r matches Err(e) ==> (e matches DbError::Patch(pe2) ==> spec_validate_update(update@)
            == Err::<(), PatchError>(pe2)),
        spec_validate_update(update@) is Ok ==> (spec_query(query@, 1) matches Err(te) ==> r
            == Err::<Option<Record>, DbError>(DbError::Translation(te))),
        r matches Err(e) ==> (e matches DbError::Translation(te2) ==> spec_query(query@, 1)
            == Err::<(Seq<char>, Seq<crate::query_translator::SpecSqlValue>), TranslationError>(
            te2,
        )),
        match r {
            Ok(recopt) => match recopt {
                Some(rec) => rec_matches_config(rec, *config),
                None => true,
            },
            Err(_) => true,
        },
{
    match validate_update(update) {
        Ok(_) => {},
        Err(pe) => {
            return Err(DbError::Patch(pe));
        },
    }
    let bytes = encode(update);
    let mut params: Vec<SqlValue> = Vec::new();
    params.push(SqlValue::Blob(bytes));
    let w = match (QueryTranslator {}).query_document(query, &mut params) {
        Ok(w) => w,
        Err(e) => {
            return Err(DbError::Translation(e));
        },
    };
    let log = config.should_log_last_modified;
    let mut sql: String;
    if upsert {
        sql = String::from_str("INSERT INTO [");
        sql.append(config.name.as_str());
        sql.append("] (_id, raw");
        if log {
            sql.append(", _last_modified");
        }
        sql.append(") VALUES ((SELECT _id FROM [");
        sql.append(config.name.as_str());
        sql.append("] ");
        let wt = where_text(&w);
        sql.append(wt.as_str());
        sql.append(" LIMIT 1 ");
        let ot = offset_text(skip);
        sql.append(ot.as_str());
        sql.append("), json_patch(NULL, ?1)");
        if log {
            sql.append(", datetime('now')");
        }
        sql.append(") ON CONFLICT (_id) DO UPDATE SET raw=json_patch(raw,?1)");
        if log {
            sql.append(", _last_modified=datetime('now')");
        }
        sql.append(" RETURNING *;");
    } else {
        sql = String::from_str("UPDATE [");
        sql.append(config.name.as_str());
        sql.append("] SET raw=json_patch(raw,?1)");
        if log {
            sql.append(", _last_modified=datetime('now')");
        }
        sql.append(" WHERE _id = (SELECT _id FROM [");
        sql.append(config.name.as_str());
        sql.append("] ");
        let wt = where_text(&w);
        sql.append(wt.as_str());
        sql.append(" LIMIT 1 ");
        let ot = offset_text(skip);
        sql.append(ot.as_str());
        sql.append(") RETURNING *;");
    }
    match query_opt_row(conn, sql.as_str(), &params) {
        Ok(Some(row)) => match decode_row(&row, config) {
            Ok(rec) => Ok(Some(rec)),
            Err(e) => Err(e),
        },
        Ok(None) => Ok(None),
        Err(e) => Err(DbError::Storage(e)),
    }
}

/// Patch every matching row (bounded by `limit`/`skip`); the affected count
/// comes back, and with `upsert` a zero-match run inserts one fresh
/// document derived from the update operators.  A malformed update document
/// is rejected as a `PatchError` before any statement reaches the store.
pub fn update_many_internal(
    conn: &rusqlite::Connection,
    config: &CollectionConfig,
    query: &Document,
    update: &Document,
    limit: i64,
    skip: i64,
    upsert: bool,
) -> (r: Result<i64, DbError>)
    ensures
        spec_validate_update(update@) matches Err(pe) ==> r == Err::<i64, DbError>(
            DbError::Patch(pe),
        ),
        r matches Err(e) ==> (e matches DbError::Patch(pe2) ==> spec_validate_update(update@)
            == Err::<(), PatchError>(pe2)),
        spec_validate_update(update@) is Ok ==> (spec_query(query@, 1) matches Err(te) ==> r
            == Err::<i64, DbError>(DbError::Translation(te))),
        r matches Err(e) ==> (e matches DbError::Translation(te2) ==> spec_query(query@, 1)
            == Err::<(Seq<char>, Seq<crate::query_translator::SpecSqlValue>), TranslationError>(
            te2,
        )),
{
    match validate_update(update) {
        Ok(_) => {},
        Err(pe) => {
            return Err(DbError::Patch(pe));
        },
    }
    let bytes = encode(update);
    let mut params: Vec<SqlValue> = Vec::new();
    params.push(SqlValue::Blob(bytes));
    let w = match (QueryTranslator {}).query_document(query, &mut params) {
        Ok(w) => w,
        Err(e) => {
            return Err(DbError::Translation(e));
        },
    };
    let log = config.should_log_last_modified;
    let mut sql = String::from_str("UPDATE [");
    sql.append(config.name.as_str());
    sql.append("] SET raw=json_patch(raw,?1)");
    if log {
        sql.append(", _last_modified=datetime('now')");
    }
    sql.append(" WHERE _id IN (SELECT _id FROM [");
    sql.append(config.name.as_str());
    sql.append("] ");
    let wt = where_text(&w);
    sql.append(wt.as_str());
    if limit != 0 {
        sql.append(" LIMIT ");
        let l = i64_to_dec(limit);
        sql.append(l.as_str());
    }
    if skip != 0 {
        sql.append(" OFFSET ");
        let sk = i64_to_dec(skip);
        sql.append(sk.as_str());
    }
    sql.append(");");
    let n = match exec_sql(conn, sql.as_str(), &params) {
        Ok(n) => n,
        Err(e) => {
            return Err(DbError::Storage(e));
        },
    };
    if n == 0 && upsert {
        let mut ins = String::from_str("INSERT INTO [");
        ins.append(config.name.as_str());
        ins.append("] (raw");
        if log {
            ins.append(", _last_modified");
        }
        ins.append(") VALUES (json_patch(NULL, ?1)");
        if log {
            ins.append(", datetime('now')");
        }
        ins.append(");");
        let mut ins_params: Vec<SqlValue> = Vec::new();
        let bytes2 = encode(update);
        ins_params.push(SqlValue::Blob(bytes2));
        match exec_sql(conn, ins.as_str(), &ins_params) {
            Ok(_) => Ok(1),
            Err(e) => Err(DbError::Storage(e)),
        }
    } else {
        if n > i64::MAX as usize {
            Ok(i64::MAX)
        } else {
            Ok(n as i64)
        }
    }
}

} // verus!
