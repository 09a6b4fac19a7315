use docstore::Batch;
use docstore::Collection;
use docstore::EngineError;
use docstore::Paginator;
use docstore::Record;
use docstore::PAGE_SIZE;

fn record(key: &str) -> Record {
    Record { key: key.to_owned(), name: None, count: None }
}

fn filled(n: usize) -> Collection<Record> {
    let mut c = Collection::new();
    for i in 0..n {
        let r = c.insert(record(&format!("k{:05}", i)));
        assert_eq!(r, Ok(()));
    }
    c
}

fn check_get_all_returns_all(n: usize) {
    let c = filled(n);
    let out = c.get_all().unwrap();
    assert_eq!(out.len(), n);
    for (i, doc) in out.iter().enumerate() {
        assert_eq!(doc.key, format!("k{:05}", i));
    }
}

#[test]
fn get_all_zero_documents() {
    check_get_all_returns_all(0);
}

#[test]
fn get_all_one_document() {
    check_get_all_returns_all(1);
}

#[test]
fn get_all_exactly_one_page() {
    check_get_all_returns_all(25);
}

#[test]
fn get_all_one_past_a_page() {
    check_get_all_returns_all(26);
}

#[test]
fn get_all_two_pages() {
    check_get_all_returns_all(50);
}

#[test]
fn get_all_many_pages() {
    check_get_all_returns_all(500);
}

#[test]
fn get_all_empty_collection_is_ok_and_empty() {
    let c: Collection<Record> = Collection::new();
    let out = c.get_all();
    assert_eq!(out, Ok(Vec::new()));
}

#[test]
fn page_size_is_twenty_five() {
    assert_eq!(PAGE_SIZE, 25);
}

#[test]
fn paginator_concatenates_batches_in_arrival_order() {
    let mut p: Paginator<u64, String> = Paginator::new();
    assert!(!p.is_finished());
    p.on_batch(Batch { items: vec![1, 2], continuation: Some("c1".to_owned()) });
    assert_eq!(p.next_continuation().map(String::as_str), Some("c1"));
    p.on_batch(Batch { items: vec![3], continuation: Some("c2".to_owned()) });
    assert_eq!(p.next_continuation().map(String::as_str), Some("c2"));
    p.on_batch(Batch { items: vec![], continuation: Some("c3".to_owned()) });
    p.on_batch(Batch { items: vec![4, 5], continuation: None });
    assert_eq!(p.next_continuation(), None);
    assert!(p.is_finished());
    assert_eq!(p.finish(), Ok(vec![1, 2, 3, 4, 5]));
}

#[test]
fn paginator_single_batch_run() {
    let mut p: Paginator<u64, String> = Paginator::new();
    p.on_batch(Batch { items: vec![7], continuation: None });
    assert!(p.is_finished());
    assert_eq!(p.finish(), Ok(vec![7]));
}

#[test]
fn failed_continuation_fetch_yields_query_error_not_truncation() {
    let mut p: Paginator<u64, String> = Paginator::new();
    p.on_batch(Batch { items: vec![1, 2, 3], continuation: Some("c1".to_owned()) });
    assert!(!p.is_finished());
    p.on_fetch_error();
    assert!(p.is_finished());
    assert_eq!(p.next_continuation(), None);
    assert_eq!(p.finish(), Err(EngineError::QueryError));
}

#[test]
fn failed_initial_fetch_yields_query_error() {
    let mut p: Paginator<u64, String> = Paginator::new();
    p.on_fetch_error();
    assert_eq!(p.finish(), Err(EngineError::QueryError));
}
