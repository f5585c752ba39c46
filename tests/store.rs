use url_shortener::store::{
    find_id, find_url, increment_visits_count, insert_stats_entry, insert_urls_entry,
    lookup_or_absent, next_visits_count, visits_count, StoreError, UrlEntry, UrlStore,
};

fn entry(id: &str, url: &str) -> UrlEntry {
    UrlEntry { id: id.to_string(), long_url: url.to_string() }
}

fn google_store() -> UrlStore {
    let mut store = UrlStore::new();
    assert_eq!(insert_urls_entry(&mut store, entry("x10N", "www.google.com")), Ok(()));
    store
}

#[test]
fn test_find_id() {
    let store = google_store();
    assert_eq!(find_id(&store, "www.google.com"), Some("x10N".to_string()));
    assert_eq!(find_id(&store, "www.yahoo.com"), None);
}

#[test]
fn test_find_id_db_timeout_err() {
    let failed: Result<Option<String>, StoreError> =
        Err(StoreError::Backend("Connection pool timed out".to_string()));
    assert_eq!(lookup_or_absent(failed), None);
}

#[test]
fn test_find_url() {
    let store = google_store();
    assert_eq!(find_url(&store, "x10N"), Some("www.google.com".to_string()));
    assert_eq!(find_url(&store, "ru6UN1"), None);
}

#[test]
fn test_find_url_db_connection_err() {
    let failed: Result<Option<String>, StoreError> =
        Err(StoreError::Backend("Connection closed".to_string()));
    assert_eq!(lookup_or_absent(failed), None);
}

#[test]
fn test_insert_urls_entry() {
    let mut store = UrlStore::new();
    let result = insert_urls_entry(&mut store, entry("x10N", "www.google.com"));
    assert!(result.is_ok());
    assert_eq!(find_url(&store, "x10N"), Some("www.google.com".to_string()));
}

#[test]
fn test_insert_urls_entry_connection_err() {
    let mut store = google_store();
    assert_eq!(
        insert_urls_entry(&mut store, entry("x10N", "www.yahoo.com")),
        Err(StoreError::DuplicateId)
    );
    assert_eq!(
        insert_urls_entry(&mut store, entry("ab", "www.google.com")),
        Err(StoreError::DuplicateUrl)
    );
    assert_eq!(find_url(&store, "ab"), None);
}

#[test]
fn test_insert_stats_entry() {
    let mut store = google_store();
    let result = insert_stats_entry(&mut store, entry("x10N", "www.google.com"));
    assert!(result.is_ok());
    assert_eq!(visits_count(&store, "x10N"), Some(0));
}

#[test]
fn test_insert_stats_entry_timeout_err() {
    let mut store = google_store();
    assert_eq!(
        insert_stats_entry(&mut store, entry("y2", "www.google.com")),
        Err(StoreError::UnknownId)
    );
    assert!(insert_stats_entry(&mut store, entry("x10N", "www.google.com")).is_ok());
    assert_eq!(
        insert_stats_entry(&mut store, entry("x10N", "www.google.com")),
        Err(StoreError::DuplicateId)
    );
}

#[test]
fn test_increment_visits_count() {
    let mut store = google_store();
    assert!(insert_stats_entry(&mut store, entry("x10N", "www.google.com")).is_ok());
    assert!(increment_visits_count(&mut store, "x10N").is_ok());
    assert_eq!(visits_count(&store, "x10N"), Some(1));
}

#[test]
fn test_increment_visits_count_timeout_err() {
    let mut store = google_store();
    let result = increment_visits_count(&mut store, "x10N");
    assert!(result.is_err());
    assert_eq!(result, Err(StoreError::CounterMissing));
}

#[test]
fn lookup_that_succeeds_is_passed_on() {
    assert_eq!(lookup_or_absent(Ok(Some("abc".to_string()))), Some("abc".to_string()));
    assert_eq!(lookup_or_absent(Ok(None)), None);
}

#[test]
fn next_visits_count_edges() {
    assert_eq!(next_visits_count(None), Err(StoreError::CounterMissing));
    assert_eq!(next_visits_count(Some(0)), Ok(1));
    assert_eq!(next_visits_count(Some(41)), Ok(42));
    assert_eq!(next_visits_count(Some(u64::MAX)), Err(StoreError::CounterOverflow));
}

#[test]
fn empty_store_finds_nothing() {
    let store = UrlStore::new();
    assert_eq!(find_id(&store, ""), None);
    assert_eq!(find_url(&store, ""), None);
    assert_eq!(visits_count(&store, "x10N"), None);
}
