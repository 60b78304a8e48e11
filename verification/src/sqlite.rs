use vstd::prelude::*;
use crate::query_translator::SqlValue;
use crate::base::{CatalogRow, Index, RawRow};

verus! {

#[verifier::external_type_specification]
#[verifier::external_body]
pub struct ExConnection(rusqlite::Connection);

#[verifier::external_type_specification]
#[verifier::external_body]
pub struct ExToSqlOutput<'a>(rusqlite::types::ToSqlOutput<'a>);

#[verifier::external_type_specification]
#[verifier::external_body]
pub struct ExRow<'a>(rusqlite::Row<'a>);

#[verifier::external_type_specification]
#[verifier::external_body]
pub struct ExContext<'a>(rusqlite::functions::Context<'a>);

#[verifier::external_type_specification]
#[verifier::external_body]
pub struct ExError(rusqlite::Error);

/// Converts the engine's parameters into values the store can bind, one
/// for one.
#[verifier::external_body]
fn to_params(params: &Vec<SqlValue>) -> Vec<rusqlite::types::ToSqlOutput<'static>> {
    params.iter().map(|v| rusqlite::types::ToSqlOutput::Owned(match v {
        SqlValue::Null => rusqlite::types::Value::Null,
        SqlValue::Integer(i) => rusqlite::types::Value::Integer(*i),
        SqlValue::Text(s) => rusqlite::types::Value::Text(s.clone()),
        SqlValue::Blob(b) => rusqlite::types::Value::Blob(b.clone()),
    })).collect()
}

/// Reads one row of a collection table into plain values, one column for
/// one field.
#[verifier::external_body]
fn row_to_raw(row: &rusqlite::Row<'_>) -> Result<RawRow, rusqlite::Error> {
    Ok(RawRow {
        id: row.get(0)?,
        raw: row.get(1)?,
        extra1: row.get::<_, Option<String>>(2).unwrap_or(None),
        extra2: row.get::<_, Option<String>>(3).unwrap_or(None),
    })
}

/// The digest blake3 computes for a byte string: a pure function of the
/// bytes alone, the same in every process.
pub uninterp spec fn blake3_of(data: Seq<u8>) -> Seq<u8>;

/// What the slugify crate turns a string into: a pure function of the
/// characters alone.
pub uninterp spec fn slug_of(s: Seq<char>) -> Seq<char>;

/// Relies on `rusqlite::Connection::open`: opens (or creates) the database
/// file at `path`.
#[verifier::external_body]
pub(crate) fn open_connection(path: &str) -> (r: Result<rusqlite::Connection, String>)
{
    rusqlite::Connection::open(path).map_err(|e| e.to_string())
}

/// Relies on `rusqlite::Connection::execute`: runs one statement with
/// positional parameters and reports the number of affected rows.
#[verifier::external_body]
pub(crate) fn exec_sql(conn: &rusqlite::Connection, sql: &str, params: &Vec<SqlValue>) -> (r:
    Result<usize, String>)
{
    conn.execute(sql, rusqlite::params_from_iter(to_params(params))).map_err(|e|
        e.to_string())
}

/// Relies on `rusqlite::Connection::execute_batch`: runs a script of
/// statements, stopping at the first error.
#[verifier::external_body]
pub(crate) fn exec_batch(conn: &rusqlite::Connection, sql: &str) -> (r: Result<(), String>)
{
    conn.execute_batch(sql).map_err(|e| e.to_string())
}

/// Relies on `rusqlite`'s `prepare`/`query_map`: runs a SELECT over a
/// collection table and hands back each row's id, raw blob and up to two
/// extra columns as plain values, in row order.
#[verifier::external_body]
pub(crate) fn query_rows(conn: &rusqlite::Connection, sql: &str, params: &Vec<SqlValue>) -> (r:
    Result<Vec<RawRow>, String>)
{
    let mut stmt = conn.prepare(sql).map_err(|e| e.to_string())?;
    let rows = stmt.query_map(rusqlite::params_from_iter(to_params(params)), row_to_raw)
        .map_err(|e| e.to_string())?;
    rows.collect::<Result<Vec<RawRow>, _>>().map_err(|e| e.to_string())
}

/// Relies on `rusqlite::Statement::query_row`: like `query_rows` but for
/// statements expected to touch at most one row; `None` when no row came
/// back.
#[verifier::external_body]
pub(crate) fn query_opt_row(conn: &rusqlite::Connection, sql: &str, params: &Vec<SqlValue>) -> (r:
    Result<Option<RawRow>, String>)
{
    let mut stmt = conn.prepare(sql).map_err(|e| e.to_string())?;
    let got = stmt.query_row(rusqlite::params_from_iter(to_params(params)), row_to_raw);
    match got {
        Ok(raw) => Ok(Some(raw)),
        Err(rusqlite::Error::QueryReturnedNoRows) => Ok(None),
        Err(e) => Err(e.to_string()),
    }
}

/// Relies on `rusqlite::Statement::query_row`: runs a single-value SELECT
/// (a count, `changes()`) and hands the integer back.
#[verifier::external_body]
pub(crate) fn query_count(conn: &rusqlite::Connection, sql: &str, params: &Vec<SqlValue>) -> (r:
    Result<i64, String>)
{
    let mut stmt = conn.prepare(sql).map_err(|e| e.to_string())?;
    stmt.query_row(rusqlite::params_from_iter(to_params(params)), |row| row.get(0))
        .map_err(|e| e.to_string())
}

/// Relies on `rusqlite`'s `prepare`/`query_map` over `pragma_index_list`:
/// one `Index` per index defined on the table, as the store reports them.
#[verifier::external_body]
pub(crate) fn query_index_rows(conn: &rusqlite::Connection, sql: &str) -> (r: Result<
    Vec<Index>,
    String,
>)
{
    let mut stmt = conn.prepare(sql).map_err(|e| e.to_string())?;
    let rows = stmt.query_map([], |row| Ok(Index {
        seq: row.get(0)?,
        name: row.get(1)?,
        is_unique: row.get(2)?,
        index_type: row.get(3)?,
        is_partial: row.get(4)?,
    })).map_err(|e| e.to_string())?;
    rows.collect::<Result<Vec<Index>, _>>().map_err(|e| e.to_string())
}

/// Relies on `rusqlite`'s `prepare`/`query_map` over the catalog table: one
/// row per registered collection, as stored.
#[verifier::external_body]
pub(crate) fn query_catalog_rows(conn: &rusqlite::Connection, sql: &str) -> (r: Result<
    Vec<CatalogRow>,
    String,
>)
{
    let mut stmt = conn.prepare(sql).map_err(|e| e.to_string())?;
    let rows = stmt.query_map([], |row| Ok(CatalogRow {
        collection: row.get(1)?,
        table_name: row.get(3)?,
        hash_document: row.get(4)?,
        log_last_modified: row.get(5)?,
    })).map_err(|e| e.to_string())?;
    rows.collect::<Result<Vec<CatalogRow>, _>>().map_err(|e| e.to_string())
}

/// Relies on `blake3::hash`: the 32-byte digest of the input, a
/// deterministic function of the bytes alone.
#[verifier::external_body]
pub(crate) fn blake3_digest(data: &[u8]) -> (r: Vec<u8>)
    ensures
        r@ == blake3_of(data@),
        r@.len() == 32,
{
    blake3::hash(data).as_bytes().to_vec()
}

/// Relies on `hex::encode`: two lowercase hexadecimal digits per input
/// byte, in order.
#[verifier::external_body]
pub(crate) fn hex_encode(data: &Vec<u8>) -> (r: String)
    ensures
        r@ == crate::funcs::spec_hex(data@),
{
    hex::encode(data)
}

/// Relies on `slugify::slugify` with `_` as the separator: a deterministic
/// function of the input characters.
#[verifier::external_body]
pub(crate) fn slug(s: &str) -> (r: String)
    ensures
        r@ == slug_of(s@),
{
    slugify::slugify(s, "", "_", None)
}

/// Relies on `chrono::Utc::now`: the clock's current time in milliseconds
/// since the epoch.  Nothing is promised of the value.
#[verifier::external_body]
pub(crate) fn now_millis() -> (r: i64)
{
    chrono::Utc::now().timestamp_millis()
}

/// Computes one `json_field` call for the store: the arguments are read,
/// the verified extractor `crate::funcs::json_field_sql` decides the value,
/// and the value is converted back, one variant for one.
#[verifier::external_body]
fn json_field_ctx(ctx: &rusqlite::functions::Context<'_>) -> Result<
    rusqlite::types::ToSqlOutput<'static>,
    rusqlite::Error,
> {
    let path = ctx.get::<String>(0)?;
    let blob = ctx.get::<Vec<u8>>(1)?;
    Ok(rusqlite::types::ToSqlOutput::Owned(
        match crate::funcs::json_field_sql(path.as_str(), blob.as_slice()) {
            SqlValue::Null => rusqlite::types::Value::Null,
            SqlValue::Integer(i) => rusqlite::types::Value::Integer(i),
            SqlValue::Text(s) => rusqlite::types::Value::Text(s),
            SqlValue::Blob(b) => rusqlite::types::Value::Blob(b),
        },
    ))
}

/// Relies on `rusqlite::Connection::create_scalar_function`: registers the
/// engine's deterministic field extractor as `json_field(path, blob)`; the
/// store computes every call through `crate::funcs::json_field_sql`.
#[verifier::external_body]
pub(crate) fn register_json_field(conn: &rusqlite::Connection) -> (r: Result<(), String>)
{
    conn.create_scalar_function(
        "json_field",
        2,
        rusqlite::functions::FunctionFlags::SQLITE_UTF8
            | rusqlite::functions::FunctionFlags::SQLITE_DETERMINISTIC,
        |ctx| json_field_ctx(ctx),
    ).map_err(|e| e.to_string())
}

/// Relies on `rusqlite::Connection::create_scalar_function`: registers the
/// engine's content hash as `blake3(blob)`, computed through
/// `crate::funcs::content_hash_hex`.
#[verifier::external_body]
pub(crate) fn register_blake3(conn: &rusqlite::Connection) -> (r: Result<(), String>)
{
    conn.create_scalar_function(
        "blake3",
        1,
        rusqlite::functions::FunctionFlags::SQLITE_UTF8
            | rusqlite::functions::FunctionFlags::SQLITE_DETERMINISTIC,
        |ctx| {
            let blob = ctx.get::<Vec<u8>>(0)?;
            Ok(crate::funcs::content_hash_hex(blob.as_slice()))
        },
    ).map_err(|e| e.to_string())
}

/// Relies on `rusqlite::Connection::create_scalar_function`: registers the
/// engine's patch application as `json_patch(original, update)`, computed
/// through `crate::funcs::patch_blobs`.
#[verifier::external_body]
pub(crate) fn register_json_patch(conn: &rusqlite::Connection) -> (r: Result<(), String>)
{
    conn.create_scalar_function(
        "json_patch",
        2,
        rusqlite::functions::FunctionFlags::SQLITE_UTF8,
        |ctx| {
            let original = ctx.get::<Option<Vec<u8>>>(0)?;
            let update = ctx.get::<Vec<u8>>(1)?;
            crate::funcs::patch_blobs(original.as_deref(), update.as_slice()).map_err(|e|
                rusqlite::Error::UserFunctionError(e.into()))
        },
    ).map_err(|e| e.to_string())
}

} // verus!
