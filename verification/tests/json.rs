use pool_watcher::error::PoolWatcherError;
use pool_watcher::json::{descend, parse_document};

#[test]
fn parse_document_reads_an_object() {
    let doc = parse_document("{\"a\": {\"b\": \"c\"}}").unwrap();
    assert!(doc.is_object());
    assert_eq!(doc["a"]["b"].as_str(), Some("c"));
}

#[test]
fn parse_document_rejects_what_is_not_json() {
    let r = parse_document("{\"a\": ");
    assert!(matches!(r, Err(PoolWatcherError::Json(_))));
    let r = parse_document("");
    assert!(matches!(r, Err(PoolWatcherError::Json(_))));
    let r = parse_document("{} {}");
    assert!(matches!(r, Err(PoolWatcherError::Json(_))));
}

#[test]
fn descend_follows_the_keys_in_order() {
    let doc = parse_document("{\"a\": {\"b\": {\"c\": 7}}, \"b\": 1}").unwrap();
    let found = descend(&doc, &["a", "b", "c"]).unwrap();
    assert_eq!(found.as_u64(), Some(7));
    let found = descend(&doc, &["a", "b"]).unwrap();
    assert!(found.is_object());
    assert_ne!(found, &doc);
}

#[test]
fn descend_with_no_key_stays_at_the_document() {
    let doc = parse_document("[1, 2]").unwrap();
    let found = descend(&doc, &[]).unwrap();
    assert_eq!(found, &doc);
}

#[test]
fn descend_stops_where_a_key_is_missing() {
    let doc = parse_document("{\"a\": {\"b\": 1}}").unwrap();
    assert!(descend(&doc, &["a", "x"]).is_none());
    assert!(descend(&doc, &["x"]).is_none());
    assert!(descend(&doc, &["a", "b", "c"]).is_none());
}

#[test]
fn descend_does_not_index_arrays_by_key() {
    let doc = parse_document("{\"a\": [{\"b\": 1}]}").unwrap();
    assert!(descend(&doc, &["a", "b"]).is_none());
    assert!(descend(&doc, &["a", "0"]).is_none());
}
