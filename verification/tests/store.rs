use docstore::classify_failure;
use docstore::Collection;
use docstore::Entity;
use docstore::EngineError;
use docstore::Record;

#[test]
fn insert_then_duplicate_insert_fails_and_keeps_first() {
    let mut c = Collection::new();
    let v1 = Record { key: "a".to_owned(), name: Some("one".to_owned()), count: None };
    assert_eq!(c.insert(v1), Ok(()));

    let v2 = Record { key: "a".to_owned(), name: Some("two".to_owned()), count: Some(9) };
    assert_eq!(c.insert(v2), Err(EngineError::DuplicateKeyError));

    let out = c.get_all().unwrap();
    assert_eq!(out.len(), 1);
    assert_eq!(out[0].key, "a");
    assert_eq!(out[0].name, Some("one".to_owned()));
    assert_eq!(out[0].count, None);
}

#[test]
fn update_replaces_in_full_not_merge() {
    let mut c = Collection::new();
    let v1 = Record { key: "a".to_owned(), name: Some("first".to_owned()), count: None };
    assert_eq!(c.insert(v1), Ok(()));

    let v2 = Record { key: "a".to_owned(), name: None, count: Some(3) };
    assert_eq!(c.update(v2), Ok(()));

    let out = c.get_all().unwrap();
    assert_eq!(out.len(), 1);
    assert_eq!(out[0].key, "a");
    assert_eq!(out[0].name, None, "a field unique to the first document must not survive");
    assert_eq!(out[0].count, Some(3));
}

#[test]
fn update_keeps_document_position() {
    let mut c = Collection::new();
    for k in ["a", "b", "c"] {
        let r = Record { key: k.to_owned(), name: None, count: Some(0) };
        assert_eq!(c.insert(r), Ok(()));
    }
    let v2 = Record { key: "b".to_owned(), name: None, count: Some(7) };
    assert_eq!(c.update(v2), Ok(()));
    let out = c.get_all().unwrap();
    let keys: Vec<&str> = out.iter().map(|d| d.key.as_str()).collect();
    assert_eq!(keys, vec!["a", "b", "c"]);
    assert_eq!(out[1].count, Some(7));
}

#[test]
fn update_missing_key_fails_and_creates_nothing() {
    let mut c: Collection<Record> = Collection::new();
    let v = Record { key: "ghostly".to_owned(), name: None, count: Some(1) };
    assert_eq!(c.update(v), Err(EngineError::NotFoundError));
    assert_eq!(c.len(), 0);
    assert_eq!(c.get_all(), Ok(Vec::new()));
}

#[test]
fn get_always_fails_unimplemented() {
    let mut c: Collection<Record> = Collection::new();
    assert_eq!(c.get(""), Err(EngineError::Unimplemented));
    assert_eq!(c.get("a"), Err(EngineError::Unimplemented));
    let v = Record { key: "a".to_owned(), name: None, count: None };
    assert_eq!(c.insert(v), Ok(()));
    assert_eq!(c.get("a"), Err(EngineError::Unimplemented));
}

#[test]
fn insert_makes_document_retrievable_by_key() {
    let mut c = Collection::new();
    let v = Record { key: "x".to_owned(), name: Some("payload".to_owned()), count: Some(5) };
    assert_eq!(c.insert(v), Ok(()));
    let out = c.get_all().unwrap();
    assert!(out.iter().any(|d| d.key == "x" && d.name.as_deref() == Some("payload")));
}

#[test]
fn classify_failure_covers_the_taxonomy() {
    assert_eq!(classify_failure(None), EngineError::ConnectionError);
    assert_eq!(classify_failure(Some(1210)), EngineError::DuplicateKeyError);
    assert_eq!(classify_failure(Some(1202)), EngineError::NotFoundError);
    assert_eq!(classify_failure(Some(1203)), EngineError::QueryError);
    assert_eq!(classify_failure(Some(0)), EngineError::QueryError);
}

#[test]
fn record_meets_the_entity_contract() {
    let v = Record { key: "k1".to_owned(), name: Some("n".to_owned()), count: Some(2) };
    assert_eq!(v.key(), "k1");
    assert_eq!(Record::collection_name(), "records");
    let copy = v.duplicate();
    assert_eq!(copy, v);
}
