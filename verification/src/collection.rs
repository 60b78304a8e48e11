use vstd::prelude::*;
use crate::base::{
    CollectionConfig,
    DbError,
    Index,
    Record,
    SearchOption,
    changes_internal,
    count_documents_internal,
    create_index_internal,
    delete_many_internal,
    delete_one_internal,
    distinct_internal,
    drop_index_internal,
    find_internal,
    find_one_and_delete_internal,
    find_one_internal,
    get_indexes_internal,
    insert_many_internal,
    insert_one_internal,
    rec_matches_config,
    reindex_internal,
    replace_one_internal,
    spec_translate_index,
    update_many_internal,
    update_one_internal,
};
use crate::patch::{PatchError, spec_validate_update};
use crate::query_translator::{TranslationError, spec_query};
use crate::value::Document;

verus! {

/// A handle on one collection: its shape plus the shared connection.
pub struct Collection<'a> {
    pub config: CollectionConfig,
    pub name: String,
    pub db: &'a rusqlite::Connection,
    pub table_name: String,
}

impl<'a> Collection<'a> {
    pub fn get_name(&self) -> (r: &str)
        ensures
            r@ == self.name@,
    {
        self.name.as_str()
    }

    pub fn get_table_name(&self) -> (r: &str)
        ensures
            r@ == self.table_name@,
    {
        self.table_name.as_str()
    }

    /// The matching records, decoded, in storage order.
    pub fn find_records(&mut self, query: &Document, options: &Option<SearchOption>) -> (r: Result<
        Vec<Record>,
        DbError,
    >)
        ensures
            spec_query(query@, 0) matches Err(te) ==> r == Err::<Vec<Record>, DbError>(
                DbError::Translation(te),
            ),
            r matches Err(e) ==> (e matches DbError::Translation(te2) ==> spec_query(query@, 0)
                == Err::<
                (Seq<char>, Seq<crate::query_translator::SpecSqlValue>),
                TranslationError,
            >(te2)),
            r matches Ok(recs) ==> spec_query(query@, 0) is Ok && forall|i: int|
                0 <= i < recs@.len() ==> rec_matches_config(#[trigger] recs@[i], old(self).config),
    {
        find_internal(self.db, &self.config, query, options)
    }

    /// Hand the matching records to `f` one by one, in storage order; an
    /// error from `f` stops the delivery and comes back as
    /// `DbError::Callback`.  The rows are fetched before `f` first runs:
    /// the callback sees the same sequence a lazy scan would show it, but
    /// the scan itself is not lazy.
    pub fn find<F: Fn(&Record) -> Result<(), String>>(
        &mut self,
        query: &Document,
        options: &Option<SearchOption>,
        f: &F,
    ) -> (r: Result<(), DbError>)
        requires
            forall|rec: Record| #[trigger] f.requires((&rec,)),
        ensures
            spec_query(query@, 0) matches Err(te) ==> r == Err::<(), DbError>(
                DbError::Translation(te),
            ),
            r matches Err(e) ==> (e matches DbError::Translation(te2) ==> spec_query(query@, 0)
                == Err::<
                (Seq<char>, Seq<crate::query_translator::SpecSqlValue>),
                TranslationError,
            >(te2)),
    {
        let recs = match find_internal(self.db, &self.config, query, options) {
            Ok(recs) => recs,
            Err(e) => {
                return Err(e);
            },
        };
        let n = recs.len();
        for i in 0..n
            invariant
                n == recs@.len(),
                spec_query(query@, 0) is Ok,
                forall|rec: Record| #[trigger] f.requires((&rec,)),
        {
            match f(&recs[i]) {
                Ok(_) => {},
                Err(m) => {
                    return Err(DbError::Callback(m));
                },
            }
        }
        Ok(())
    }

    /// The first match after `skip` rows; `NotFound` when none.
    pub fn find_one(&mut self, query: &Document, skip: i64) -> (r: Result<Record, DbError>)
        ensures
            spec_query(query@, 0) matches Err(te) ==> r == Err::<Record, DbError>(
                DbError::Translation(te),
            ),
            r matches Err(e) ==> (e matches DbError::Translation(te2) ==> spec_query(query@, 0)
                == Err::<
                (Seq<char>, Seq<crate::query_translator::SpecSqlValue>),
                TranslationError,
            >(te2)),
            r matches Ok(rec) ==> spec_query(query@, 0) is Ok && rec_matches_config(
                rec,
                old(self).config,
            ),
    {
        find_one_internal(self.db, &self.config, query, skip)
    }

    /// Atomically select one match and delete it, handing back its prior
    /// state.
    pub fn find_one_and_delete(&mut self, query: &Document) -> (r: Result<Option<Record>, DbError>)
        ensures
            spec_query(query@, 0) matches Err(te) ==> r == Err::<Option<Record>, DbError>(
                DbError::Translation(te),
            ),
            r matches Err(e) ==> (e matches DbError::Translation(te2) ==> spec_query(query@, 0)
                == Err::<
                (Seq<char>, Seq<crate::query_translator::SpecSqlValue>),
                TranslationError,
            >(te2)),
    {
        find_one_and_delete_internal(self.db, &self.config, query)
    }

    pub fn count_documents(&mut self, query: &Document, options: &Option<SearchOption>) -> (r:
        Result<i64, DbError>)
        ensures
            spec_query(query@, 0) matches Err(te) ==> r == Err::<i64, DbError>(
                DbError::Translation(te),
            ),
            r matches Err(e) ==> (e matches DbError::Translation(te2) ==> spec_query(query@, 0)
                == Err::<
                (Seq<char>, Seq<crate::query_translator::SpecSqlValue>),
                TranslationError,
            >(te2)),
    {
        count_documents_internal(self.db, &self.config, query, options)
    }

    /// Create an index over one extracted field; repeating the call is a
    /// no-op, never an error.
    pub fn create_index(&mut self, config: &Document, is_unique: bool) -> (r: Result<(), DbError>)
        ensures
            spec_translate_index(config@, Seq::<char>::empty()) is None ==> r == Err::<
                (),
                DbError,
            >(DbError::Translation(TranslationError::BadOperand)),
            r matches Err(e) ==> (e matches DbError::Translation(te) ==> spec_translate_index(
                config@,
                Seq::<char>::empty(),
            ) is None && te == TranslationError::BadOperand),
    {
        create_index_internal(self.db, &self.config, config, is_unique)
    }

    pub fn delete_one(&mut self, query: &Document) -> (r: Result<usize, DbError>)
        ensures
            spec_query(query@, 0) matches Err(te) ==> r == Err::<usize, DbError>(
                DbError::Translation(te),
            ),
            r matches Err(e) ==> (e matches DbError::Translation(te2) ==> spec_query(query@, 0)
                == Err::<
                (Seq<char>, Seq<crate::query_translator::SpecSqlValue>),
                TranslationError,
            >(te2)),
    {
        delete_one_internal(self.db, &self.config, query)
    }

    pub fn changes(&mut self) -> (r: Result<i64, DbError>) {
        changes_internal(self.db)
    }

    pub fn delete_many(&mut self, query: &Document) -> (r: Result<usize, DbError>)
        ensures
            spec_query(query@, 0) matches Err(te) ==> r == Err::<usize, DbError>(
                DbError::Translation(te),
            ),
            r matches Err(e) ==> (e matches DbError::Translation(te2) ==> spec_query(query@, 0)
                == Err::<
                (Seq<char>, Seq<crate::query_translator::SpecSqlValue>),
                TranslationError,
            >(te2)),
    {
        delete_many_internal(self.db, &self.config, query)
    }

    pub fn distinct(
        &mut self,
        field: &str,
        query: &Option<Document>,
        options: &Option<SearchOption>,
    ) -> (r: Result<i64, DbError>)
        ensures
            match query {
                Some(q) => spec_query(q@, 0) matches Err(te) ==> r == Err::<i64, DbError>(
                    DbError::Translation(te),
                ),
                None => true,
            },
            r matches Err(e) ==> (e matches DbError::Translation(te2) ==> query matches Some(q2)
                && spec_query(q2@, 0) == Err::<
                (Seq<char>, Seq<crate::query_translator::SpecSqlValue>),
                TranslationError,
            >(te2)),
    {
        distinct_internal(self.db, &self.config, field, query, options)
    }

    pub fn drop_index(&mut self, index_name: &str) -> (r: Result<(), DbError>) {
        drop_index_internal(self.db, &self.config, index_name)
    }

    pub fn get_indexes(&mut self) -> (r: Result<Vec<Index>, DbError>) {
        get_indexes_internal(self.db, &self.config)
    }

    /// Encode and store one document; the stored record comes back.
    pub fn insert_one(&mut self, document: &Document) -> (r: Result<Option<Record>, DbError>)
        ensures
            match r {
                Ok(recopt) => match recopt {
                    Some(rec) => rec_matches_config(rec, old(self).config),
                    None => true,
                },
                Err(_) => true,
            },
    {
        insert_one_internal(self.db, &self.config, document)
    }

    /// Store a batch of documents as one unit: all of them land or none.
    pub fn insert_many(&mut self, documents: &Vec<Document>) -> (r: Result<(), DbError>) {
        insert_many_internal(self.db, &self.config, documents)
    }

    pub fn reindex(&mut self) -> (r: Result<(), DbError>) {
        reindex_internal(self.db, &self.config)
    }

    pub fn replace_one(&mut self, query: &Document, replacement: &Document, skip: i64) -> (r:
        Result<Option<Record>, DbError>)
        ensures
            spec_query(query@, 1) matches Err(te) ==> r == Err::<Option<Record>, DbError>(
                DbError::Translation(te),
            ),
            r matches Err(e) ==> (e matches DbError::Translation(te2) ==> spec_query(query@, 1)
                == Err::<
                (Seq<char>, Seq<crate::query_translator::SpecSqlValue>),
                TranslationError,
            >(te2)),
    {
        replace_one_internal(self.db, &self.config, query, replacement, skip)
    }

    pub fn update_one(&mut self, query: &Document, update: &Document, skip: i64, upsert: bool) -> (
        r: Result<Option<Record>, DbError>)
        ensures
            spec_validate_update(update@) matches Err(pe) ==> r == Err::<Option<Record>, DbError>(
                DbError::Patch(pe),
            ),
            r matches Err(e) ==> (e matches DbError::Patch(pe2) ==> spec_validate_update(update@)
                == Err::<(), PatchError>(pe2)),
            spec_validate_update(update@) is Ok ==> (spec_query(query@, 1) matches Err(te) ==> r
                == Err::<Option<Record>, DbError>(DbError::Translation(te))),
            r matches Err(e) ==> (e matches DbError::Translation(te2) ==> spec_query(query@, 1)
                == Err::<
                (Seq<char>, Seq<crate::query_translator::SpecSqlValue>),
                TranslationError,
            >(te2)),
    {
        update_one_internal(self.db, &self.config, query, update, skip, upsert)
    }

    pub fn update_many(
        &mut self,
        query: &Document,
        update: &Document,
        limit: i64,
        skip: i64,
        upsert: bool,
    ) -> (r: Result<i64, DbError>)
        ensures
            spec_validate_update(update@) matches Err(pe) ==> r == Err::<i64, DbError>(
                DbError::Patch(pe),
            ),
            r matches Err(e) ==> (e matches DbError::Patch(pe2) ==> spec_validate_update(update@)
                == Err::<(), PatchError>(pe2)),
            spec_validate_update(update@) is Ok ==> (spec_query(query@, 1) matches Err(te) ==> r
                == Err::<i64, DbError>(DbError::Translation(te))),
            r matches Err(e) ==> (e matches DbError::Translation(te2) ==> spec_query(query@, 1)
                == Err::<
                (Seq<char>, Seq<crate::query_translator::SpecSqlValue>),
                TranslationError,
            >(te2)),
    {
        update_many_internal(self.db, &self.config, query, update, limit, skip, upsert)
    }
}

} // verus!
