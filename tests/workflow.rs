use url_shortener::canonical::canonicalize;
use url_shortener::ident::{generate_id, MAX_ID_LEN, MIN_ID_LEN};
use url_shortener::model::{AppState, Url};
use url_shortener::store::{find_url, visits_count, StoreError, UrlStore};
use url_shortener::workflow::{
    create_id, get_short_url, keep_if_free, redirect_on_lookup, redirect_on_write, redirect_url,
    shorten_on_lookup, shorten_on_write, shorten_start, RedirectError, RedirectStage,
    RedirectStep, ShortenError, ShortenStage, ShortenStep,
};

const BASE: &str = "http://short.ly/";

fn state() -> AppState {
    AppState { base_url: BASE.to_string() }
}

fn request(long_url: &str) -> Url {
    Url { long_url: long_url.to_string(), short_url: String::new() }
}

fn id_of(short: &str) -> String {
    assert!(short.starts_with(BASE));
    short[BASE.len()..].to_string()
}

fn is_safe(c: char) -> bool {
    c == '_' || c == '-' || c.is_ascii_alphanumeric()
}

#[test]
fn generated_ids_are_well_formed() {
    for _ in 0..200 {
        let id = generate_id();
        let n = id.chars().count();
        assert!(MIN_ID_LEN <= n && n <= MAX_ID_LEN);
        assert!(id.chars().all(is_safe));
    }
}

#[test]
fn canonical_form_fills_in_defaults() {
    assert_eq!(canonicalize("https://example.com"), Ok("https://example.com/".to_string()));
    assert_eq!(canonicalize("HTTPS://Example.COM:443/a"), Ok("https://example.com/a".to_string()));
    assert!(canonicalize("not a url").is_err());
}

#[test]
fn short_url_is_base_followed_by_id() {
    assert_eq!(state().short_url("x10N"), "http://short.ly/x10N".to_string());
}

#[test]
fn scenario_shorten_then_redirect_twice() {
    let mut store = UrlStore::new();
    let short = get_short_url(&mut store, &state(), &request("https://example.com/a")).unwrap();
    let x1 = id_of(&short);
    assert!(!x1.is_empty() && x1.chars().count() <= MAX_ID_LEN);
    assert_eq!(visits_count(&store, &x1), Some(0));
    assert_eq!(redirect_url(&mut store, &x1), Ok("https://example.com/a".to_string()));
    assert_eq!(visits_count(&store, &x1), Some(1));
    assert_eq!(redirect_url(&mut store, &x1), Ok("https://example.com/a".to_string()));
    assert_eq!(visits_count(&store, &x1), Some(2));
    assert_eq!(redirect_url(&mut store, "Z9"), Err(RedirectError::NotFound));
    assert_eq!(visits_count(&store, &x1), Some(2));
    assert_eq!(visits_count(&store, "Z9"), None);
}

#[test]
fn shorten_is_idempotent() {
    let mut store = UrlStore::new();
    let first = get_short_url(&mut store, &state(), &request("https://example.com/a")).unwrap();
    let second = get_short_url(&mut store, &state(), &request("https://example.com/a")).unwrap();
    assert_eq!(first, second);
    let third = get_short_url(&mut store, &state(), &request("https://EXAMPLE.com/a")).unwrap();
    assert_eq!(first, third);
}

#[test]
fn round_trip_gives_canonical_url() {
    let mut store = UrlStore::new();
    let short = get_short_url(&mut store, &state(), &request("https://example.com")).unwrap();
    let id = id_of(&short);
    assert_eq!(find_url(&store, &id), Some("https://example.com/".to_string()));
    assert_eq!(redirect_url(&mut store, &id), Ok("https://example.com/".to_string()));
}

#[test]
fn distinct_urls_get_distinct_ids() {
    let mut store = UrlStore::new();
    let mut seen: Vec<String> = Vec::new();
    for i in 0..20 {
        let long = format!("https://example.com/page{}", i);
        match get_short_url(&mut store, &state(), &request(&long)) {
            Ok(short) => {
                assert!(!seen.contains(&short));
                seen.push(short);
            }
            Err(e) => assert_eq!(e, ShortenError::Collision),
        }
    }
    assert!(!seen.is_empty());
}

#[test]
fn unknown_identifier_is_not_found() {
    let mut store = UrlStore::new();
    let short = get_short_url(&mut store, &state(), &request("https://example.com/b")).unwrap();
    let id = id_of(&short);
    assert_eq!(redirect_url(&mut store, "doesNotExist"), Err(RedirectError::NotFound));
    assert_eq!(visits_count(&store, &id), Some(0));
}

#[test]
fn malformed_url_is_rejected() {
    let mut store = UrlStore::new();
    match get_short_url(&mut store, &state(), &request("not a url")) {
        Err(ShortenError::InvalidUrl(msg)) => assert!(!msg.is_empty()),
        other => panic!("unexpected answer {:?}", other),
    }
    assert!(create_id(&store).is_some());
}

#[test]
fn create_id_avoids_used_ids() {
    let store = UrlStore::new();
    let id = create_id(&store).unwrap();
    assert!(id.chars().all(is_safe));
}

#[test]
fn shorten_steps_follow_the_store() {
    match shorten_start("not a url") {
        ShortenStep::Done(Err(ShortenError::InvalidUrl(_))) => {}
        other => panic!("unexpected step {:?}", other),
    }
    let stage = match shorten_start("https://example.com") {
        ShortenStep::Pending(ShortenStage::Dedup(u)) => {
            assert_eq!(u, "https://example.com/");
            ShortenStage::Dedup(u)
        }
        other => panic!("unexpected step {:?}", other),
    };
    match shorten_on_lookup(stage.clone(), Some("x10N".to_string())) {
        ShortenStep::Done(Ok(id)) => assert_eq!(id, "x10N"),
        other => panic!("unexpected step {:?}", other),
    }
    let candidate = match shorten_on_lookup(stage, None) {
        ShortenStep::Pending(ShortenStage::CheckCandidate(u, id)) => {
            assert_eq!(u, "https://example.com/");
            id
        }
        other => panic!("unexpected step {:?}", other),
    };
    let check = ShortenStage::CheckCandidate("https://example.com/".to_string(), candidate.clone());
    match shorten_on_lookup(check.clone(), Some("https://other.org/".to_string())) {
        ShortenStep::Done(Err(ShortenError::Collision)) => {}
        other => panic!("unexpected step {:?}", other),
    }
    let save = match shorten_on_lookup(check, None) {
        ShortenStep::Pending(s @ ShortenStage::SaveMapping(_, _)) => s,
        other => panic!("unexpected step {:?}", other),
    };
    let failure = StoreError::Backend("Connection closed".to_string());
    match shorten_on_write(save.clone(), Err(failure.clone())) {
        ShortenStep::Done(Err(ShortenError::Store(e))) => assert_eq!(e, failure),
        other => panic!("unexpected step {:?}", other),
    }
    let counter = match shorten_on_write(save, Ok(())) {
        ShortenStep::Pending(s @ ShortenStage::SaveCounter(_, _)) => s,
        other => panic!("unexpected step {:?}", other),
    };
    match shorten_on_write(counter, Ok(())) {
        ShortenStep::Done(Ok(id)) => assert_eq!(id, candidate),
        other => panic!("unexpected step {:?}", other),
    }
}

#[test]
fn redirect_steps_follow_the_store() {
    let resolve = RedirectStage::Resolve("x10N".to_string());
    match redirect_on_lookup(resolve.clone(), None) {
        RedirectStep::Done(Err(RedirectError::NotFound)) => {}
        other => panic!("unexpected step {:?}", other),
    }
    let count = match redirect_on_lookup(resolve, Some("www.google.com".to_string())) {
        RedirectStep::Pending(s @ RedirectStage::Count(_, _)) => s,
        other => panic!("unexpected step {:?}", other),
    };
    match redirect_on_write(count.clone(), Err(StoreError::CounterMissing)) {
        RedirectStep::Done(Err(RedirectError::Store(StoreError::CounterMissing))) => {}
        other => panic!("unexpected step {:?}", other),
    }
    match redirect_on_write(count, Ok(())) {
        RedirectStep::Done(Ok(url)) => assert_eq!(url, "www.google.com"),
        other => panic!("unexpected step {:?}", other),
    }
}

#[test]
fn redirect_without_counter_fails_without_redirecting() {
    let mut store = UrlStore::new();
    let entry = url_shortener::store::UrlEntry {
        id: "x10N".to_string(),
        long_url: "www.google.com".to_string(),
    };
    assert!(url_shortener::store::insert_urls_entry(&mut store, entry).is_ok());
    assert_eq!(
        redirect_url(&mut store, "x10N"),
        Err(RedirectError::Store(StoreError::CounterMissing))
    );
}

#[test]
fn keep_if_free_rejects_used_ids() {
    let mut store = UrlStore::new();
    assert_eq!(keep_if_free(&store, "x10N".to_string()), Some("x10N".to_string()));
    let entry = url_shortener::store::UrlEntry {
        id: "x10N".to_string(),
        long_url: "www.google.com".to_string(),
    };
    assert!(url_shortener::store::insert_urls_entry(&mut store, entry).is_ok());
    assert_eq!(keep_if_free(&store, "x10N".to_string()), None);
    assert_eq!(keep_if_free(&store, "x10M".to_string()), Some("x10M".to_string()));
}

#[test]
fn shorten_on_empty_store_always_succeeds() {
    for _ in 0..50 {
        let mut store = UrlStore::new();
        assert!(get_short_url(&mut store, &state(), &request("https://example.com/a")).is_ok());
    }
}
