use shortener::errors::ErrorKind;
use shortener::service::{resolve, shorten, shorten_with_candidates};
use shortener::store::MemStore;

fn url_safe(c: char) -> bool {
    c.is_ascii_alphanumeric() || c == '_' || c == '-'
}

#[test]
fn shorten_round_trip_concrete() {
    let mut store = MemStore::new();
    let code = shorten(&mut store, "https://example.com/page").unwrap();
    assert_eq!(code.len(), 10);
    assert!(code.chars().all(url_safe));
    let url = resolve(&store, &code).unwrap();
    assert_eq!(url, "https://example.com/page");
    assert_eq!(store.row_count(), 1);
}

#[test]
fn shorten_rejects_non_url() {
    let mut store = MemStore::new();
    let before = store.row_count();
    let r = shorten(&mut store, "not a url");
    assert_eq!(r.unwrap_err().kind, ErrorKind::InvalidUrl);
    assert_eq!(store.row_count(), before);
}

#[test]
fn resolve_unknown_code_on_empty_store() {
    let store = MemStore::new();
    let r = resolve(&store, &"zzzzzzzzzz".to_string());
    assert_eq!(r, Err(ErrorKind::NotFound));
}

#[test]
fn duplicate_insert_rejected_and_winner_kept() {
    let mut store = MemStore::new();
    let code = "abcdefghij".to_string();
    assert!(store.insert(&code, &"https://one.example/".to_string()).is_ok());
    let r = store.insert(&code, &"https://two.example/".to_string());
    assert_eq!(r, Err(ErrorKind::DuplicateKey));
    assert_eq!(store.row_count(), 1);
    let m = store.lookup(&code).unwrap();
    assert_eq!(m.code, code);
    assert_eq!(m.target_url, "https://one.example/");
}

#[test]
fn retry_after_forced_collision() {
    let mut store = MemStore::new();
    store
        .insert(&"aaaaaaaaaa".to_string(), &"https://first.example/".to_string())
        .unwrap();
    let candidates = vec!["aaaaaaaaaa".to_string(), "bbbbbbbbbb".to_string()];
    let r = shorten_with_candidates(&mut store, "https://second.example/", &candidates);
    assert_eq!(r, Ok("bbbbbbbbbb".to_string()));
    assert_eq!(store.row_count(), 2);
    assert_eq!(
        resolve(&store, &"bbbbbbbbbb".to_string()).unwrap(),
        "https://second.example/"
    );
    assert_eq!(
        resolve(&store, &"aaaaaaaaaa".to_string()).unwrap(),
        "https://first.example/"
    );
}

#[test]
fn exhausted_when_every_candidate_collides() {
    let mut store = MemStore::new();
    store
        .insert(&"cccccccccc".to_string(), &"https://c.example/".to_string())
        .unwrap();
    let candidates = vec!["cccccccccc".to_string()];
    let r = shorten_with_candidates(&mut store, "https://d.example/", &candidates);
    assert_eq!(r.unwrap_err().kind, ErrorKind::ExhaustedRetries);
    assert_eq!(store.row_count(), 1);
}

#[test]
fn invalid_input_fails_before_any_insert() {
    let mut store = MemStore::new();
    let candidates = vec!["dddddddddd".to_string()];
    let r = shorten_with_candidates(&mut store, "no scheme here", &candidates);
    assert_eq!(r.unwrap_err().kind, ErrorKind::InvalidUrl);
    assert_eq!(store.row_count(), 0);
}

#[test]
fn distinct_urls_get_distinct_codes() {
    let mut store = MemStore::new();
    let c1 = shorten(&mut store, "https://example.com/a").unwrap();
    let c2 = shorten(&mut store, "https://example.com/b").unwrap();
    let c3 = shorten(&mut store, "https://example.com/c").unwrap();
    assert_ne!(c1, c2);
    assert_ne!(c1, c3);
    assert_ne!(c2, c3);
    assert_eq!(store.row_count(), 3);
    assert_eq!(resolve(&store, &c1).unwrap(), "https://example.com/a");
    assert_eq!(resolve(&store, &c2).unwrap(), "https://example.com/b");
    assert_eq!(resolve(&store, &c3).unwrap(), "https://example.com/c");
}

#[test]
fn resolve_is_stable_across_calls() {
    let mut store = MemStore::new();
    let code = shorten(&mut store, "https://example.net/x?q=1").unwrap();
    let r1 = resolve(&store, &code).unwrap();
    let r2 = resolve(&store, &code).unwrap();
    assert_eq!(r1, r2);
    assert_eq!(r1, "https://example.net/x?q=1");
}

#[test]
fn codes_are_matched_exactly() {
    let mut store = MemStore::new();
    let code = "AbCdEfGh01".to_string();
    store
        .insert(&code, &"https://case.example/".to_string())
        .unwrap();
    assert!(resolve(&store, &code).is_ok());
    assert_eq!(
        resolve(&store, &"abcdefgh01".to_string()),
        Err(ErrorKind::NotFound)
    );
    assert_eq!(
        resolve(&store, &"AbCdEfGh01 ".to_string()),
        Err(ErrorKind::NotFound)
    );
}
