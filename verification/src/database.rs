use vstd::prelude::*;
use crate::base::{CatalogRow, CollectionConfig, DbError, clone_config};
use crate::collection::Collection;
use crate::transaction::TransactionCollection;
use crate::query_translator::SqlValue;
use crate::sqlite::{
    exec_batch,
    exec_sql,
    open_connection,
    query_catalog_rows,
    register_blake3,
    register_json_field,
    register_json_patch,
};
use crate::value::str_eq;
use vstd::string::{StringExecFns, StrSliceExecFns};

verus! {

/// How a database is opened: its file path, and whether the embedding
/// application wants statement tracing or profiling.  This engine carries
/// the two flags but installs no tracing callbacks itself: logging is left
/// to the embedding application.
#[derive(Debug)]
pub struct DatabaseConfig {
    pub path: String,
    pub should_trace: bool,
    pub should_profile: bool,
}

impl DatabaseConfig {
    pub fn new(path: &str) -> (r: DatabaseConfig)
        ensures
            r.path@ == path@ && !r.should_trace && !r.should_profile,
    {
        DatabaseConfig { path: String::from_str(path), should_trace: false, should_profile: false }
    }

    pub fn trace(self, arg: bool) -> (r: DatabaseConfig)
        ensures
            r.should_trace == arg && r.path@ == self.path@ && r.should_profile
                == self.should_profile,
    {
        DatabaseConfig { should_trace: arg, ..self }
    }

    pub fn profile(self, arg: bool) -> (r: DatabaseConfig)
        ensures
            r.should_profile == arg && r.path@ == self.path@ && r.should_trace
                == self.should_trace,
    {
        DatabaseConfig { should_profile: arg, ..self }
    }
}

/// The names registered in a collection registry.
pub open spec fn reg_names(s: Seq<CollectionConfig>) -> Seq<Seq<char>> {
    Seq::new(s.len(), |i: int| s[i].name@)
}

/// Whether a registry holds a collection of the given name.
pub open spec fn reg_contains(s: Seq<CollectionConfig>, name: Seq<char>) -> bool {
    exists|i: int| 0 <= i < s.len() && reg_names(s)[i] == name
}

/// No two registry entries share a name.
pub open spec fn reg_wf(s: Seq<CollectionConfig>) -> bool {
    forall|i: int, j: int|
        0 <= i < j < s.len() ==> (#[trigger] s[i]).name@ != (#[trigger] s[j]).name@
}

/// Two configurations describe the same shape.
pub open spec fn cfg_eq(a: CollectionConfig, b: CollectionConfig) -> bool {
    &&& a.name@ == b.name@
    &&& a.table_name@ == b.table_name@
    &&& a.should_hash_document == b.should_hash_document
    &&& a.should_log_last_modified == b.should_log_last_modified
    &&& a.should_hash_unique == b.should_hash_unique
}

/// The registry's entry of the given name (meaningful when the name is
/// registered; under `reg_wf` it is the one such entry).
pub open spec fn reg_entry(s: Seq<CollectionConfig>, name: Seq<char>) -> CollectionConfig {
    s[choose|i: int| 0 <= i < s.len() && reg_names(s)[i] == name]
}

/// In a well-formed registry, the entry of a registered name is the one
/// that carries it.
proof fn lemma_reg_entry(s: Seq<CollectionConfig>, i: int)
    requires
        reg_wf(s),
        0 <= i < s.len(),
    ensures
        reg_entry(s, s[i].name@) == s[i],
{
    assert(reg_names(s)[i] == s[i].name@);
    let i0 = choose|j: int| 0 <= j < s.len() && reg_names(s)[j] == s[i].name@;
    if i0 != i {
        if i0 < i {
            assert(s[i0].name@ != s[i].name@);
        } else {
            assert(s[i].name@ != s[i0].name@);
        }
    }
}

/// A configuration carries exactly what one catalog row stores.
pub open spec fn cfg_matches_row(c: CollectionConfig, row: CatalogRow) -> bool {
    &&& c.name@ == row.collection@
    &&& c.table_name@ == row.table_name@
    &&& c.should_hash_document == row.hash_document
    &&& c.should_log_last_modified == row.log_last_modified
    &&& !c.should_hash_unique
}

/// Removing an entry from a well-formed registry keeps it well formed,
/// removes that entry's name, and introduces no name.
proof fn lemma_reg_remove(s: Seq<CollectionConfig>, idx: int)
    requires
        reg_wf(s),
        0 <= idx < s.len(),
    ensures
        reg_wf(s.remove(idx)),
        !reg_contains(s.remove(idx), s[idx].name@),
        forall|n: Seq<char>| !reg_contains(s, n) ==> !reg_contains(s.remove(idx), n),
{
    let t = s.remove(idx);
    assert forall|i: int, j: int| 0 <= i < j < t.len() implies (#[trigger] t[i]).name@ != (
    #[trigger] t[j]).name@ by {
        let i0 = if i < idx {
            i
        } else {
            i + 1
        };
        let j0 = if j < idx {
            j
        } else {
            j + 1
        };
        assert(t[i] == s[i0]);
        assert(t[j] == s[j0]);
        assert(s[i0].name@ != s[j0].name@);
    }
    assert forall|k: int| 0 <= k < t.len() implies reg_names(t)[k] != s[idx].name@ by {
        let k0 = if k < idx {
            k
        } else {
            k + 1
        };
        assert(t[k] == s[k0]);
        if k0 < idx {
            assert(s[k0].name@ != s[idx].name@);
        } else {
            assert(s[idx].name@ != s[k0].name@);
        }
    }
    assert forall|n: Seq<char>| reg_contains(t, n) implies reg_contains(s, n) by {
        let k = choose|k: int| 0 <= k < t.len() && reg_names(t)[k] == n;
        let k0 = if k < idx {
            k
        } else {
            k + 1
        };
        assert(t[k] == s[k0]);
        assert(reg_names(s)[k0] == n);
    }
}

/// Appending a fresh name to a well-formed registry keeps it well formed
/// and adds exactly that name.
proof fn lemma_reg_push(s: Seq<CollectionConfig>, c: CollectionConfig)
    requires
        reg_wf(s),
        !reg_contains(s, c.name@),
    ensures
        reg_wf(s.push(c)),
        reg_contains(s.push(c), c.name@),
        forall|n: Seq<char>| reg_contains(s.push(c), n) <==> reg_contains(s, n) || n == c.name@,
{
    let t = s.push(c);
    assert forall|i: int, j: int| 0 <= i < j < t.len() implies (#[trigger] t[i]).name@ != (
    #[trigger] t[j]).name@ by {
        if j == s.len() {
            assert(t[i] == s[i]);
            assert(t[j] == c);
            assert(reg_names(s)[i] == s[i].name@);
        } else {
            assert(t[i] == s[i]);
            assert(t[j] == s[j]);
            assert(s[i].name@ != s[j].name@);
        }
    }
    assert(reg_names(t)[s.len() as int] == c.name@);
    assert forall|n: Seq<char>| reg_contains(t, n) implies reg_contains(s, n) || n == c.name@ by {
        let k = choose|k: int| 0 <= k < t.len() && reg_names(t)[k] == n;
        if k < s.len() {
            assert(t[k] == s[k]);
            assert(reg_names(s)[k] == n);
        } else {
            assert(t[k] == c);
        }
    }
    assert forall|n: Seq<char>| reg_contains(s, n) implies reg_contains(t, n) by {
        let k = choose|k: int| 0 <= k < s.len() && reg_names(s)[k] == n;
        assert(t[k] == s[k]);
        assert(reg_names(t)[k] == n);
    }
}

fn registry_find(collections: &Vec<CollectionConfig>, name: &str) -> (r: Option<usize>)
    ensures
        match r {
            Some(i) => i < collections@.len() && collections@[i as int].name@ == name@
                && reg_contains(collections@, name@),
            None => !reg_contains(collections@, name@),
        },
{
    let n = collections.len();
    for i in 0..n
        invariant
            n == collections@.len(),
            forall|j: int| 0 <= j < i ==> reg_names(collections@)[j] != name@,
    {
        if str_eq(collections[i].name.as_str(), name) {
            proof {
                assert(reg_names(collections@)[i as int] == name@);
            }
            return Some(i);
        }
    }
    None
}

/// The registry entry one catalog row describes.
fn config_of_catalog_row(row: &CatalogRow) -> (r: CollectionConfig)
    ensures
        cfg_matches_row(r, *row),
{
    CollectionConfig {
        name: row.collection.clone(),
        table_name: row.table_name.clone(),
        should_hash_document: row.hash_document,
        should_log_last_modified: row.log_last_modified,
        should_hash_unique: false,
    }
}

/// An open database: the backing connection, with the engine's extension
/// functions installed, and the registry of known collections.  The
/// registry's names are unique (`wf`), which `open` establishes and every
/// mutating operation preserves.
pub struct Database {
    pub config: DatabaseConfig,
    pub internal: rusqlite::Connection,
    pub collections: Vec<CollectionConfig>,
}

impl Database {
    /// The registry invariant: no two registered collections share a name.
    pub open spec fn wf(&self) -> bool {
        reg_wf(self.collections@)
    }
}

/// The surface of an open transaction: the same collection operations,
/// scoped so they take effect together or not at all.
pub struct Transaction<'conn> {
    pub connection: &'conn rusqlite::Connection,
    pub collections: Vec<CollectionConfig>,
}

impl<'a> Transaction<'a> {
    /// A handle on a registered collection, scoped to this transaction;
    /// `NotFound` for an unregistered name.
    pub fn collection(&self, collection_name: &str) -> (r: Result<
        TransactionCollection<'a>,
        DbError,
    >)
        ensures
            match r {
                Ok(col) => reg_contains(self.collections@, collection_name@) && col.name@
                    == collection_name@,
                Err(e) => e == DbError::NotFound && !reg_contains(
                    self.collections@,
                    collection_name@,
                ),
            },
    {
        match registry_find(&self.collections, collection_name) {
            Some(i) => {
                let cfg = clone_config(&self.collections[i]);
                let tname = cfg.table_name.clone();
                Ok(TransactionCollection {
                    config: cfg,
                    name: String::from_str(collection_name),
                    db: self.connection,
                    table_name: tname,
                })
            },
            None => Err(DbError::NotFound),
        }
    }
}

/// The statement that lays out a collection table: a rowid key, the raw
/// document blob, then per configuration a stored generated hash column
/// and a modification time column.
pub open spec fn spec_create_table_sql(name: Seq<char>, hash: bool, log: bool) -> Seq<char> {
    "CREATE TABLE ["@ + name + "] (_id INTEGER PRIMARY KEY, raw BLOB NOT NULL"@ + (
    if hash {
        ", _hash NCHAR(40) GENERATED ALWAYS AS (blake3(raw)) STORED"@
    } else {
        Seq::<char>::empty()
    }) + (
    if log {
        ", _last_modified DATETIME"@
    } else {
        Seq::<char>::empty()
    }) + ");"@
}

fn create_table_sql(name: &str, hash: bool, log: bool) -> (t: String)
    ensures
        t@ == spec_create_table_sql(name@, hash, log),
{
    let mut t = String::from_str("CREATE TABLE [");
    t.append(name);
    t.append("] (_id INTEGER PRIMARY KEY, raw BLOB NOT NULL");
    if hash {
        t.append(", _hash NCHAR(40) GENERATED ALWAYS AS (blake3(raw)) STORED");
    }
    if log {
        t.append(", _last_modified DATETIME");
    }
    t.append(");");
    t
}

impl Database {
    /// Open (or create) the database at the configured path: install the
    /// extractor, hash and patch functions as engine extension points,
    /// create the catalog and meta tables if absent, and load the
    /// registered collections.  The handle carries the configuration it was
    /// opened with, and its registry is well formed.
    pub fn open(config: &DatabaseConfig) -> (r: Result<Database, DbError>)
        ensures
            r matches Ok(db) ==> db.config.path@ == config.path@ && db.config.should_trace
                == config.should_trace && db.config.should_profile == config.should_profile
                && db.wf(),
    {
        let conn = match open_connection(config.path.as_str()) {
            Ok(c) => c,
            Err(e) => {
                return Err(DbError::Storage(e));
            },
        };
        match register_json_field(&conn) {
            Ok(_) => {},
            Err(e) => {
                return Err(DbError::Storage(e));
            },
        }
        match register_blake3(&conn) {
            Ok(_) => {},
            Err(e) => {
                return Err(DbError::Storage(e));
            },
        }
        match register_json_patch(&conn) {
            Ok(_) => {},
            Err(e) => {
                return Err(DbError::Storage(e));
            },
        }
        match exec_batch(
            &conn,
            "BEGIN;\
             CREATE TABLE IF NOT EXISTS _hoardbase (\
             id INTEGER PRIMARY KEY,\
             collection TEXT NOT NULL,\
             type INTEGER NOT NULL,\
             table_name TEXT UNIQUE NOT NULL,\
             hash_document BOOLEAN NOT NULL,\
             log_last_modified BOOLEAN NOT NULL,\
             encrypt BOOLEAN NOT NULL,\
             compress BOOLEAN NOT NULL,\
             serialization_method TEXT NOT NULL);\
             CREATE UNIQUE INDEX IF NOT EXISTS collection ON _hoardbase(collection);\
             CREATE TABLE IF NOT EXISTS _hoardbase_meta (\
             id INTEGER PRIMARY KEY,\
             version TEXT NOT NULL,\
             build_hash TEXT NOT NULL,\
             format_version INTEGER NOT NULL,\
             build_time DATETIME NOT NULL);\
             INSERT INTO _hoardbase_meta (version, build_hash, format_version, build_time)\
             VALUES ('0.1.0', '', 0, datetime('now'));\
             COMMIT;",
        ) {
            Ok(_) => {},
            Err(e) => {
                return Err(DbError::Storage(e));
            },
        }
        let rows = match query_catalog_rows(&conn, "SELECT * FROM _hoardbase WHERE type=0;") {
            Ok(rows) => rows,
            Err(e) => {
                return Err(DbError::Storage(e));
            },
        };
        let mut collections: Vec<CollectionConfig> = Vec::new();
        let n = rows.len();
        for i in 0..n
            invariant
                n == rows@.len(),
                reg_wf(collections@),
                forall|j: int|
                    0 <= j < collections@.len() ==> exists|k: int|
                        0 <= k < n && cfg_matches_row(#[trigger] collections@[j], rows@[k]),
        {
            let cfg = config_of_catalog_row(&rows[i]);
            match registry_find(&collections, rows[i].collection.as_str()) {
                Some(_) => {
                    // The catalog's unique index makes this unreachable in a
                    // healthy file; a duplicated name keeps its first row.
                },
                None => {
                    proof {
                        lemma_reg_push(collections@, cfg);
                    }
                    collections.push(cfg);
                    proof {
                        assert(cfg_matches_row(
                            collections@[collections@.len() - 1],
                            rows@[i as int],
                        ));
                    }
                },
            }
        }
        Ok(
            Database {
                config: DatabaseConfig {
                    path: config.path.clone(),
                    should_trace: config.should_trace,
                    should_profile: config.should_profile,
                },
                internal: conn,
                collections,
            },
        )
    }

    /// The file path this database was opened with.
    pub fn path(&self) -> (r: Option<String>)
        ensures
            r matches Some(p) && p@ == self.config.path@,
    {
        Some(self.config.path.clone())
    }

    /// Create a collection, or hand back the existing one: a registered
    /// name always succeeds and keeps its stored shape (the argument is
    /// ignored, because a collection's shape never changes after creation).
    /// A fresh one gets its table, its optional hash index and its catalog
    /// row inside one transaction.  The handle's configuration is the
    /// registry's entry for the name.
    pub fn create_collection<'a>(
        &'a mut self,
        collection_name: &str,
        config: &CollectionConfig,
    ) -> (r: Result<Collection<'a>, DbError>)
        requires
            old(self).wf(),
        ensures
            final(self).wf(),
            reg_contains(old(self).collections@, collection_name@) ==> r is Ok,
            r matches Ok(col) ==> col.name@ == collection_name@ && reg_contains(
                final(self).collections@,
                collection_name@,
            ) && cfg_eq(col.config, reg_entry(final(self).collections@, collection_name@)),
    {
        match registry_find(&self.collections, collection_name) {
            Some(i) => {
                let cfg = clone_config(&self.collections[i]);
                let tname = cfg.table_name.clone();
                proof {
                    lemma_reg_entry(self.collections@, i as int);
                    assert(cfg_eq(cfg, reg_entry(self.collections@, collection_name@)));
                }
                return Ok(Collection {
                    config: cfg,
                    name: String::from_str(collection_name),
                    db: &self.internal,
                    table_name: tname,
                });
            },
            None => {},
        }
        let no_params: Vec<SqlValue> = Vec::new();
        match exec_sql(&self.internal, "BEGIN;", &no_params) {
            Ok(_) => {},
            Err(e) => {
                return Err(DbError::Storage(e));
            },
        }
        let ddl = create_table_sql(
            collection_name,
            config.should_hash_document,
            config.should_log_last_modified,
        );
        match exec_sql(&self.internal, ddl.as_str(), &no_params) {
            Ok(_) => {},
            Err(e) => {
                let _ = exec_sql(&self.internal, "ROLLBACK;", &no_params);
                return Err(DbError::Storage(e));
            },
        }
        if config.should_hash_document {
            let mut idx = String::from_str("CREATE ");
            if config.should_hash_unique {
                idx.append("UNIQUE ");
            }
            idx.append("INDEX IF NOT EXISTS _hash ON [");
            idx.append(collection_name);
            idx.append("](_hash);");
            match exec_sql(&self.internal, idx.as_str(), &no_params) {
                Ok(_) => {},
                Err(e) => {
                    let _ = exec_sql(&self.internal, "ROLLBACK;", &no_params);
                    return Err(DbError::Storage(e));
                },
            }
        }
        let mut cat_params: Vec<SqlValue> = Vec::new();
        cat_params.push(SqlValue::Text(String::from_str(collection_name)));
        cat_params.push(SqlValue::Text(String::from_str(collection_name)));
        cat_params.push(SqlValue::Integer(
            if config.should_hash_document {
                1
            } else {
                0
            },
        ));
        cat_params.push(SqlValue::Integer(
            if config.should_log_last_modified {
                1
            } else {
                0
            },
        ));
        match exec_sql(
            &self.internal,
            "INSERT INTO _hoardbase (collection, type, table_name, hash_document,\
             log_last_modified, encrypt, compress, serialization_method)\
             VALUES (?1, 0, ?2, ?3, ?4, 0, 0, 'doc') ON CONFLICT(collection) DO NOTHING;",
            &cat_params,
        ) {
            Ok(_) => {},
            Err(e) => {
                let _ = exec_sql(&self.internal, "ROLLBACK;", &no_params);
                return Err(DbError::Storage(e));
            },
        }
        match exec_sql(&self.internal, "COMMIT;", &no_params) {
            Ok(_) => {},
            Err(e) => {
                return Err(DbError::Storage(e));
            },
        }
        let stored = CollectionConfig {
            name: String::from_str(collection_name),
            table_name: String::from_str(collection_name),
            should_hash_document: config.should_hash_document,
            should_log_last_modified: config.should_log_last_modified,
            should_hash_unique: config.should_hash_unique,
        };
        let handle_cfg = clone_config(&stored);
        proof {
            lemma_reg_push(self.collections@, stored);
        }
        self.collections.push(stored);
        proof {
            lemma_reg_entry(self.collections@, self.collections@.len() - 1);
            assert(cfg_eq(handle_cfg, reg_entry(self.collections@, collection_name@)));
        }
        Ok(
            Collection {
                config: handle_cfg,
                name: String::from_str(collection_name),
                db: &self.internal,
                table_name: String::from_str(collection_name),
            },
        )
    }

    /// A handle on a registered collection; `NotFound` for an unknown name.
    pub fn collection<'a>(&'a mut self, collection_name: &str) -> (r: Result<
        Collection<'a>,
        DbError,
    >)
        ensures
            match r {
                Ok(col) => reg_contains(old(self).collections@, collection_name@) && col.name@
                    == collection_name@,
                Err(e) => e == DbError::NotFound && !reg_contains(
                    old(self).collections@,
                    collection_name@,
                ),
            },
    {
        match registry_find(&self.collections, collection_name) {
            Some(i) => {
                let cfg = clone_config(&self.collections[i]);
                let tname = cfg.table_name.clone();
                Ok(Collection {
                    config: cfg,
                    name: String::from_str(collection_name),
                    db: &self.internal,
                    table_name: tname,
                })
            },
            None => Err(DbError::NotFound),
        }
    }

    /// The registered collections' shapes.
    pub fn list_collections(&self) -> (r: Vec<CollectionConfig>)
        ensures
            r@.len() == self.collections@.len(),
            forall|i: int|
                0 <= i < r@.len() ==> cfg_eq(#[trigger] r@[i], self.collections@[i]),
    {
        let mut out: Vec<CollectionConfig> = Vec::new();
        let n = self.collections.len();
        for i in 0..n
            invariant
                n == self.collections@.len(),
                out@.len() == i,
                forall|j: int| 0 <= j < i ==> cfg_eq(#[trigger] out@[j], self.collections@[j]),
        {
            out.push(clone_config(&self.collections[i]));
        }
        out
    }

    /// Drop a collection: its table and its catalog row go together, in
    /// one transaction, and the name leaves the registry.  `NotFound`
    /// exactly when the name was never registered.
    pub fn drop_collection(&mut self, collection_name: &str) -> (r: Result<(), DbError>)
        requires
            old(self).wf(),
        ensures
            final(self).wf(),
            !reg_contains(old(self).collections@, collection_name@) ==> r == Err::<(), DbError>(
                DbError::NotFound,
            ),
            r == Err::<(), DbError>(DbError::NotFound) ==> !reg_contains(
                old(self).collections@,
                collection_name@,
            ),
            r matches Ok(_) ==> !reg_contains(final(self).collections@, collection_name@),
    {
        let idx = match registry_find(&self.collections, collection_name) {
            Some(i) => i,
            None => {
                return Err(DbError::NotFound);
            },
        };
        let no_params: Vec<SqlValue> = Vec::new();
        match exec_sql(&self.internal, "BEGIN;", &no_params) {
            Ok(_) => {},
            Err(e) => {
                return Err(DbError::Storage(e));
            },
        }
        let mut ddl = String::from_str("DROP TABLE IF EXISTS [");
        ddl.append(collection_name);
        ddl.append("];");
        match exec_sql(&self.internal, ddl.as_str(), &no_params) {
            Ok(_) => {},
            Err(e) => {
                let _ = exec_sql(&self.internal, "ROLLBACK;", &no_params);
                return Err(DbError::Storage(e));
            },
        }
        let mut params: Vec<SqlValue> = Vec::new();
        params.push(SqlValue::Text(String::from_str(collection_name)));
        match exec_sql(&self.internal, "DELETE FROM _hoardbase WHERE collection = ?1;", &params) {
            Ok(_) => {},
            Err(e) => {
                let _ = exec_sql(&self.internal, "ROLLBACK;", &no_params);
                return Err(DbError::Storage(e));
            },
        }
        match exec_sql(&self.internal, "COMMIT;", &no_params) {
            Ok(_) => {},
            Err(e) => {
                return Err(DbError::Storage(e));
            },
        }
        proof {
            lemma_reg_remove(self.collections@, idx as int);
        }
        self.collections.remove(idx);
        Ok(())
    }

    /// Rename a collection: the table and the catalog row change together,
    /// in one transaction; afterwards the registry holds the new name and
    /// no longer the old one.  `NotFound` exactly when the old name was
    /// never registered; a target name that is already registered is
    /// refused before anything runs.
    pub fn rename_collection(&mut self, collection_old_name: &str, collection_new_name: &str) -> (
        r: Result<(), DbError>)
        requires
            old(self).wf(),
        ensures
            final(self).wf(),
            !reg_contains(old(self).collections@, collection_old_name@) ==> r == Err::<
                (),
                DbError,
            >(DbError::NotFound),
            r == Err::<(), DbError>(DbError::NotFound) ==> !reg_contains(
                old(self).collections@,
                collection_old_name@,
            ),
            r matches Ok(_) ==> reg_contains(final(self).collections@, collection_new_name@)
                && !reg_contains(final(self).collections@, collection_old_name@),
    {
        let idx = match registry_find(&self.collections, collection_old_name) {
            Some(i) => i,
            None => {
                return Err(DbError::NotFound);
            },
        };
        match registry_find(&self.collections, collection_new_name) {
            Some(_) => {
                return Err(DbError::Storage(String::from_str("target name already registered")));
            },
            None => {},
        }
        let no_params: Vec<SqlValue> = Vec::new();
        match exec_sql(&self.internal, "BEGIN;", &no_params) {
            Ok(_) => {},
            Err(e) => {
                return Err(DbError::Storage(e));
            },
        }
        let mut ddl = String::from_str("ALTER TABLE [");
        ddl.append(collection_old_name);
        ddl.append("] RENAME TO [");
        ddl.append(collection_new_name);
        ddl.append("];");
        match exec_sql(&self.internal, ddl.as_str(), &no_params) {
            Ok(_) => {},
            Err(e) => {
                let _ = exec_sql(&self.internal, "ROLLBACK;", &no_params);
                return Err(DbError::Storage(e));
            },
        }
        let mut params: Vec<SqlValue> = Vec::new();
        params.push(SqlValue::Text(String::from_str(collection_new_name)));
        params.push(SqlValue::Text(String::from_str(collection_old_name)));
        match exec_sql(
            &self.internal,
            "UPDATE _hoardbase SET collection = ?1, table_name = ?1 WHERE collection = ?2;",
            &params,
        ) {
            Ok(_) => {},
            Err(e) => {
                let _ = exec_sql(&self.internal, "ROLLBACK;", &no_params);
                return Err(DbError::Storage(e));
            },
        }
        match exec_sql(&self.internal, "COMMIT;", &no_params) {
            Ok(_) => {},
            Err(e) => {
                return Err(DbError::Storage(e));
            },
        }
        let old_cfg = clone_config(&self.collections[idx]);
        let new_cfg = CollectionConfig {
            name: String::from_str(collection_new_name),
            table_name: String::from_str(collection_new_name),
            should_hash_document: old_cfg.should_hash_document,
            should_log_last_modified: old_cfg.should_log_last_modified,
            should_hash_unique: old_cfg.should_hash_unique,
        };
        proof {
            lemma_reg_remove(self.collections@, idx as int);
        }
        self.collections.remove(idx);
        proof {
            lemma_reg_push(self.collections@, new_cfg);
        }
        self.collections.push(new_cfg);
        Ok(())
    }

    /// Run `f` inside one backing-store transaction: its work commits only
    /// if `f` succeeds, and is rolled back if `f` fails, whose message then
    /// comes back as `DbError::Callback`; the only other failures are the
    /// store's own.
    pub fn transaction<F: FnOnce(&Transaction<'_>) -> Result<(), String>>(&mut self, f: F) -> (r:
        Result<(), DbError>)
        requires
            forall|t: Transaction<'_>| #[trigger] f.requires((&t,)),
        ensures
            r matches Err(e) ==> e matches DbError::Callback(_) || e matches DbError::Storage(_),
    {
        let no_params: Vec<SqlValue> = Vec::new();
        match exec_sql(&self.internal, "BEGIN;", &no_params) {
            Ok(_) => {},
            Err(e) => {
                return Err(DbError::Storage(e));
            },
        }
        let mut collections: Vec<CollectionConfig> = Vec::new();
        let n = self.collections.len();
        for i in 0..n
            invariant
                n == self.collections@.len(),
        {
            collections.push(clone_config(&self.collections[i]));
        }
        let t = Transaction { connection: &self.internal, collections };
        match f(&t) {
            Ok(_) => {
                match exec_sql(&self.internal, "COMMIT;", &no_params) {
                    Ok(_) => Ok(()),
                    Err(e) => Err(DbError::Storage(e)),
                }
            },
            Err(m) => {
                let _ = exec_sql(&self.internal, "ROLLBACK;", &no_params);
                Err(DbError::Callback(m))
            },
        }
    }
}

} // verus!
