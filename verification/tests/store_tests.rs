use hoardbase::base::{CollectionConfig, DbError, SearchOption};
use hoardbase::patch::PatchError;
use hoardbase::codec::encode;
use hoardbase::database::{Database, DatabaseConfig};
use hoardbase::value::{Document, Value};

fn doc(fields: Vec<(&str, Value)>) -> Document {
    let mut d = Document::new();
    for (k, v) in fields {
        d.set(k.to_string(), v);
    }
    d
}

fn open_mem() -> Database {
    let config = DatabaseConfig::new(":memory:");
    Database::open(&config).unwrap()
}

#[test]
fn test_find() {
    let config = DatabaseConfig::new(":memory:").trace(true).profile(true);
    let mut db = Database::open(&config).unwrap();
    let ccol = CollectionConfig::default("test_collect")
        .hash_document(true)
        .log_last_modified(true);
    let mut collection = db.create_collection("test_collect", &ccol).unwrap();
    collection
        .create_index(&doc(vec![("age", Value::Int64(1))]), false)
        .unwrap();

    collection
        .insert_one(&doc(vec![
            ("kind", Value::Text("apples".to_string())),
            ("qty", Value::Int64(5)),
        ]))
        .unwrap();
    collection
        .insert_one(&doc(vec![
            ("kind", Value::Text("bananas".to_string())),
            ("qty", Value::Int64(7)),
        ]))
        .unwrap();
    collection
        .insert_one(&doc(vec![
            ("kind", Value::Text("oranges".to_string())),
            (
                "qty",
                Value::Object(doc(vec![
                    ("in stock", Value::Int64(8)),
                    ("ordered", Value::Int64(12)),
                ])),
            ),
        ]))
        .unwrap();
    collection
        .insert_one(&doc(vec![
            ("kind", Value::Text("avocados".to_string())),
            ("qty", Value::Text("fourteen".to_string())),
        ]))
        .unwrap();

    let row = collection
        .find_one(&doc(vec![("kind", Value::Text("apples".to_string()))]), 0)
        .unwrap();
    assert_eq!(
        row.data.get("kind"),
        Some(&Value::Text("apples".to_string()))
    );
    assert_eq!(row.data.get("qty"), Some(&Value::Int64(5)));
}

#[test]
fn insert_then_find_one_by_id() {
    let mut db = open_mem();
    let ccol = CollectionConfig::default("people");
    let mut col = db.create_collection("people", &ccol).unwrap();
    let d = doc(vec![
        ("name", Value::Text("test".to_string())),
        ("age", Value::Int64(23)),
        ("tags", Value::Array(vec![Value::Int64(1), Value::Int64(2)])),
    ]);
    let rec = col.insert_one(&d).unwrap().unwrap();
    assert!(rec.id > 0);
    let found = col
        .find_one(&doc(vec![("_id", Value::Int64(rec.id))]), 0)
        .unwrap();
    assert_eq!(found.data, d);
    assert_eq!(found.id, rec.id);
}

#[test]
fn stored_hash_is_blake3_of_the_blob() {
    let mut db = open_mem();
    let ccol = CollectionConfig::default("hashed").hash_document(true);
    let mut col = db.create_collection("hashed", &ccol).unwrap();
    let d = doc(vec![("kind", Value::Text("apples".to_string()))]);
    let rec = col.insert_one(&d).unwrap().unwrap();
    let expected = hex::encode(blake3::hash(&encode(&d)).as_bytes());
    assert_eq!(rec.hash, expected);
    assert_eq!(rec.hash.len(), 64);
}

#[test]
fn hash_is_empty_without_the_feature() {
    let mut db = open_mem();
    let ccol = CollectionConfig::default("plain")
        .hash_document(false)
        .log_last_modified(false);
    let mut col = db.create_collection("plain", &ccol).unwrap();
    let rec = col
        .insert_one(&doc(vec![("x", Value::Int64(1))]))
        .unwrap()
        .unwrap();
    assert_eq!(rec.hash, "");
    assert_eq!(rec.last_modified, "");
}

#[test]
fn create_index_is_idempotent() {
    let mut db = open_mem();
    let ccol = CollectionConfig::default("idx").hash_document(false);
    let mut col = db.create_collection("idx", &ccol).unwrap();
    col.create_index(&doc(vec![("age", Value::Int64(1))]), false)
        .unwrap();
    col.create_index(&doc(vec![("age", Value::Int64(1))]), false)
        .unwrap();
    let indexes = col.get_indexes().unwrap();
    assert_eq!(indexes.len(), 1);
    assert_eq!(indexes[0].name, "age");
    assert!(!indexes[0].is_unique);
}

#[test]
fn upsert_inserts_exactly_the_update_fields() {
    let mut db = open_mem();
    let ccol = CollectionConfig::default("ups").hash_document(false);
    let mut col = db.create_collection("ups", &ccol).unwrap();
    let rec = col
        .update_one(
            &doc(vec![("age", Value::Int64(999))]),
            &doc(vec![(
                "$set",
                Value::Object(doc(vec![("name", Value::Text("new".to_string()))])),
            )]),
            0,
            true,
        )
        .unwrap()
        .unwrap();
    // The query fields are not merged in: only $set's fields exist.
    assert_eq!(rec.data, doc(vec![("name", Value::Text("new".to_string()))]));
    let count = col.count_documents(&Document::new(), &None).unwrap();
    assert_eq!(count, 1);
}

#[test]
fn gte_scan_returns_matching_in_insertion_order() {
    let mut db = open_mem();
    let ccol = CollectionConfig::default("ages").hash_document(false);
    let mut col = db.create_collection("ages", &ccol).unwrap();
    for age in [18i64, 20, 22, 24, 26] {
        col.insert_one(&doc(vec![("age", Value::Int64(age))]))
            .unwrap();
    }
    let recs = col
        .find_records(
            &doc(vec![(
                "age",
                Value::Object(doc(vec![("$gte", Value::Int64(22))])),
            )]),
            &None,
        )
        .unwrap();
    assert_eq!(recs.len(), 3);
    let ages: Vec<_> = recs
        .iter()
        .map(|r| match r.data.get("age") {
            Some(Value::Int64(a)) => *a,
            _ => panic!("missing age"),
        })
        .collect();
    assert_eq!(ages, vec![22, 24, 26]);
}

#[test]
fn update_one_applies_the_patch_in_the_store() {
    let mut db = open_mem();
    let ccol = CollectionConfig::default("inv").hash_document(false);
    let mut col = db.create_collection("inv", &ccol).unwrap();
    col.insert_one(&doc(vec![
        ("kind", Value::Text("apples".to_string())),
        ("qty", Value::Int64(10)),
    ]))
    .unwrap();
    let rec = col
        .update_one(
            &doc(vec![("kind", Value::Text("apples".to_string()))]),
            &doc(vec![(
                "$inc",
                Value::Object(doc(vec![("qty", Value::Int64(5))])),
            )]),
            0,
            false,
        )
        .unwrap()
        .unwrap();
    assert_eq!(rec.data.get("qty"), Some(&Value::Int64(15)));
}

#[test]
fn update_many_counts_and_upserts() {
    let mut db = open_mem();
    let ccol = CollectionConfig::default("many").hash_document(false);
    let mut col = db.create_collection("many", &ccol).unwrap();
    for _ in 0..3 {
        col.insert_one(&doc(vec![("n", Value::Int64(1))])).unwrap();
    }
    let touched = col
        .update_many(
            &doc(vec![("n", Value::Int64(1))]),
            &doc(vec![(
                "$inc",
                Value::Object(doc(vec![("n", Value::Int64(1))])),
            )]),
            0,
            0,
            false,
        )
        .unwrap();
    assert_eq!(touched, 3);
    let upserted = col
        .update_many(
            &doc(vec![("n", Value::Int64(99))]),
            &doc(vec![(
                "$set",
                Value::Object(doc(vec![("n", Value::Int64(99))])),
            )]),
            0,
            0,
            true,
        )
        .unwrap();
    assert_eq!(upserted, 1);
    assert_eq!(col.count_documents(&Document::new(), &None).unwrap(), 4);
}

#[test]
fn delete_and_count_and_distinct() {
    let mut db = open_mem();
    let ccol = CollectionConfig::default("fruit").hash_document(false);
    let mut col = db.create_collection("fruit", &ccol).unwrap();
    for (kind, qty) in [("apples", 5i64), ("bananas", 7), ("cherries", 5)] {
        col.insert_one(&doc(vec![
            ("kind", Value::Text(kind.to_string())),
            ("qty", Value::Int64(qty)),
        ]))
        .unwrap();
    }
    assert_eq!(col.count_documents(&Document::new(), &None).unwrap(), 3);
    assert_eq!(col.distinct("qty", &None, &None).unwrap(), 2);
    let deleted = col
        .delete_one(&doc(vec![("kind", Value::Text("apples".to_string()))]))
        .unwrap();
    assert_eq!(deleted, 1);
    assert_eq!(col.changes().unwrap(), 1);
    let deleted_all = col.delete_many(&Document::new()).unwrap();
    assert_eq!(deleted_all, 2);
    assert_eq!(col.count_documents(&Document::new(), &None).unwrap(), 0);
}

#[test]
fn replace_one_overwrites_wholesale() {
    let mut db = open_mem();
    let ccol = CollectionConfig::default("repl").hash_document(false);
    let mut col = db.create_collection("repl", &ccol).unwrap();
    col.insert_one(&doc(vec![("a", Value::Int64(1))])).unwrap();
    let replacement = doc(vec![("b", Value::Int64(2))]);
    let rec = col
        .replace_one(&doc(vec![("a", Value::Int64(1))]), &replacement, 0)
        .unwrap()
        .unwrap();
    assert_eq!(rec.data, replacement);
}

#[test]
fn find_one_and_delete_returns_prior_state() {
    let mut db = open_mem();
    let ccol = CollectionConfig::default("fod").hash_document(false);
    let mut col = db.create_collection("fod", &ccol).unwrap();
    col.insert_one(&doc(vec![("k", Value::Int64(1))])).unwrap();
    let got = col
        .find_one_and_delete(&doc(vec![("k", Value::Int64(1))]))
        .unwrap()
        .unwrap();
    assert_eq!(got.data, doc(vec![("k", Value::Int64(1))]));
    assert_eq!(
        col.find_one_and_delete(&doc(vec![("k", Value::Int64(1))]))
            .unwrap(),
        None
    );
}

#[test]
fn find_one_distinguishes_not_found_from_bad_query() {
    let mut db = open_mem();
    let ccol = CollectionConfig::default("err").hash_document(false);
    let mut col = db.create_collection("err", &ccol).unwrap();
    assert_eq!(
        col.find_one(&doc(vec![("k", Value::Int64(1))]), 0),
        Err(DbError::NotFound)
    );
    match col.find_one(&doc(vec![("_id", Value::Text("x".to_string()))]), 0) {
        Err(DbError::Translation(_)) => {}
        other => panic!("expected a translation error, got {:?}", other),
    }
}

#[test]
fn insert_many_is_atomic_and_find_streams() {
    let mut db = open_mem();
    let ccol = CollectionConfig::default("batch").hash_document(false);
    let mut col = db.create_collection("batch", &ccol).unwrap();
    let docs = vec![
        doc(vec![("i", Value::Int64(1))]),
        doc(vec![("i", Value::Int64(2))]),
        doc(vec![("i", Value::Int64(3))]),
    ];
    col.insert_many(&docs).unwrap();
    assert_eq!(col.count_documents(&Document::new(), &None).unwrap(), 3);
    let seen = std::cell::Cell::new(0);
    col.find(&Document::new(), &None, &|_rec| {
        seen.set(seen.get() + 1);
        Ok(())
    })
    .unwrap();
    assert_eq!(seen.get(), 3);
    // A callback error aborts the scan and propagates.
    let r = col.find(&Document::new(), &None, &|_rec| Err("stop".to_string()));
    assert_eq!(r, Err(DbError::Callback("stop".to_string())));
}

#[test]
fn find_respects_limit_and_skip() {
    let mut db = open_mem();
    let ccol = CollectionConfig::default("lim").hash_document(false);
    let mut col = db.create_collection("lim", &ccol).unwrap();
    for i in 0..5i64 {
        col.insert_one(&doc(vec![("i", Value::Int64(i))])).unwrap();
    }
    let opts = Some(SearchOption::default().limit(2).skip(1));
    let recs = col.find_records(&Document::new(), &opts).unwrap();
    assert_eq!(recs.len(), 2);
    assert_eq!(recs[0].data.get("i"), Some(&Value::Int64(1)));
    assert_eq!(recs[1].data.get("i"), Some(&Value::Int64(2)));
}

#[test]
fn current_date_lands_in_the_store() {
    let mut db = open_mem();
    let ccol = CollectionConfig::default("cd").hash_document(false);
    let mut col = db.create_collection("cd", &ccol).unwrap();
    col.insert_one(&doc(vec![("k", Value::Int64(1))])).unwrap();
    let rec = col
        .update_one(
            &doc(vec![("k", Value::Int64(1))]),
            &doc(vec![(
                "$currentDate",
                Value::Object(doc(vec![("stamp", Value::Text("date".to_string()))])),
            )]),
            0,
            false,
        )
        .unwrap()
        .unwrap();
    match rec.data.get("stamp") {
        Some(Value::DateTime(t)) => assert!(*t > 0),
        other => panic!("expected a datetime, got {:?}", other),
    }
}

#[test]
fn malformed_updates_are_rejected_before_the_store() {
    let mut db = open_mem();
    let ccol = CollectionConfig::default("preval").hash_document(false);
    let mut col = db.create_collection("preval", &ccol).unwrap();
    col.insert_one(&doc(vec![("n", Value::Int64(1))])).unwrap();
    let unknown = doc(vec![("replace", Value::Object(Document::new()))]);
    assert_eq!(
        col.update_one(&Document::new(), &unknown, 0, false),
        Err(DbError::Patch(PatchError::UnknownOperator))
    );
    let reserved = doc(vec![("$pull", Value::Object(Document::new()))]);
    assert_eq!(
        col.update_many(&Document::new(), &reserved, 0, 0, false),
        Err(DbError::Patch(PatchError::UnsupportedOperator))
    );
    let bad_shape = doc(vec![("$set", Value::Int64(3))]);
    assert_eq!(
        col.update_one(&Document::new(), &bad_shape, 0, false),
        Err(DbError::Patch(PatchError::BadOperand))
    );
    // Nothing was touched by the rejected updates.
    assert_eq!(col.count_documents(&Document::new(), &None).unwrap(), 1);
}

#[test]
fn invalid_index_config_is_a_translation_error() {
    let mut db = open_mem();
    let ccol = CollectionConfig::default("badidx").hash_document(false);
    let mut col = db.create_collection("badidx", &ccol).unwrap();
    match col.create_index(&doc(vec![("age", Value::Int64(2))]), false) {
        Err(DbError::Translation(_)) => {}
        other => panic!("expected a translation error, got {:?}", other),
    }
    match col.create_index(&Document::new(), false) {
        Err(DbError::Translation(_)) => {}
        other => panic!("expected a translation error, got {:?}", other),
    }
}

#[test]
fn rename_to_a_registered_name_is_refused() {
    let mut db = open_mem();
    let ca = CollectionConfig::default("alpha").hash_document(false);
    let cb = CollectionConfig::default("beta").hash_document(false);
    db.create_collection("alpha", &ca).unwrap();
    db.create_collection("beta", &cb).unwrap();
    match db.rename_collection("alpha", "beta") {
        Err(DbError::Storage(_)) => {}
        other => panic!("expected a storage error, got {:?}", other),
    }
    assert!(db.collection("alpha").is_ok());
    assert!(db.collection("beta").is_ok());
}

#[test]
fn collections_are_registered_listed_renamed_dropped() {
    let mut db = open_mem();
    let ccol = CollectionConfig::default("first").hash_document(false);
    db.create_collection("first", &ccol).unwrap();
    assert!(db.collection("first").is_ok());
    assert!(matches!(db.collection("missing"), Err(DbError::NotFound)));
    let names: Vec<String> = db
        .list_collections()
        .into_iter()
        .map(|c| c.name)
        .collect();
    assert_eq!(names, vec!["first".to_string()]);

    db.rename_collection("first", "second").unwrap();
    assert!(db.collection("first").is_err());
    let mut col = db.collection("second").unwrap();
    col.insert_one(&doc(vec![("x", Value::Int64(1))])).unwrap();

    db.drop_collection("second").unwrap();
    assert!(db.collection("second").is_err());
}

#[test]
fn existing_collection_keeps_its_stored_shape() {
    let mut db = open_mem();
    let ccol = CollectionConfig::default("stable").hash_document(false);
    db.create_collection("stable", &ccol).unwrap();
    // A second create with another shape hands back the existing one.
    let other = CollectionConfig::default("stable").hash_document(true);
    let col = db.create_collection("stable", &other).unwrap();
    assert!(!col.config.should_hash_document);
}

#[test]
fn transaction_commits_on_success_and_rolls_back_on_failure() {
    let mut db = open_mem();
    let ccol = CollectionConfig::default("txn").hash_document(false);
    db.create_collection("txn", &ccol).unwrap();
    db.transaction(|t| {
        let mut col = t.collection("txn").map_err(|_| "no collection".to_string())?;
        col.insert_one(&{
            let mut d = Document::new();
            d.set("committed".to_string(), Value::Bool(true));
            d
        })
        .map_err(|_| "insert failed".to_string())?;
        // A batch insert joins the open transaction through its savepoint.
        let batch = vec![
            {
                let mut d = Document::new();
                d.set("batch".to_string(), Value::Int64(1));
                d
            },
            {
                let mut d = Document::new();
                d.set("batch".to_string(), Value::Int64(2));
                d
            },
        ];
        col.insert_many(&batch).map_err(|_| "batch failed".to_string())?;
        Ok(())
    })
    .unwrap();
    let r = db.transaction(|t| {
        let mut col = t.collection("txn").map_err(|_| "no collection".to_string())?;
        col.insert_one(&{
            let mut d = Document::new();
            d.set("committed".to_string(), Value::Bool(false));
            d
        })
        .map_err(|_| "insert failed".to_string())?;
        Err("abort".to_string())
    });
    assert!(r.is_err());
    let mut col = db.collection("txn").unwrap();
    assert_eq!(col.count_documents(&Document::new(), &None).unwrap(), 3);
}
