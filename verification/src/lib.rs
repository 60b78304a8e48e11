//! An embedded document store: MongoDB-style documents, field-path queries
//! and operator-based updates, compiled onto a transactional SQLite backing
//! store that keeps each document as one binary blob per row.
//!
//! The verified core is the document value model and its codec (`value`,
//! `codec`), the field-path extractor (`extract`), the query translator
//! (`query_translator`), and the patch engine (`patch`).  The collection
//! and catalog layer (`base`, `collection`, `transaction`, `database`)
//! builds every statement it hands the store through verified constructors
//! and decodes every row it gets back through the verified codec; the
//! backing store itself is reached through the narrow trusted layer in
//! `sqlite`, and the store-side extension functions it registers are the
//! verified functions in `funcs`.

pub mod value;
pub mod codec;
pub mod extract;
pub mod patch;
pub mod numfmt;
pub mod query_translator;
pub mod sqlite;
pub mod funcs;
pub mod base;
pub mod collection;
pub mod transaction;
pub mod database;
pub mod admin;
