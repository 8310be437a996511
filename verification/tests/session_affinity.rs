use codex_switcher::json::read_json_text;
use codex_switcher::session_affinity::{
    extract_session_key, session_key, SessionAffinity, BINDING_TTL, RECENT_DEBOUNCE,
};
use std::hash::{Hash, Hasher};

const SECOND: u128 = 1_000_000_000;

#[test]
fn session_goes_back_to_its_account() {
    let mut a = SessionAffinity::new();
    a.record_cache_hit("s", "acc", 0);
    assert_eq!(a.lookup("s", |_| true).as_deref(), Some("acc"));
    assert_eq!(a.lookup("t", |_| true), None);
    assert!(a.has_active_binding_to("acc"));
    assert!(!a.has_active_binding_to("other"));
}

#[test]
fn binding_lasts_an_hour_and_no_longer() {
    let mut a = SessionAffinity::default();
    a.record_cache_hit_at("s", "acc", 0, 5);
    assert_eq!(a.lookup_at("s", |_| true, 5 + BINDING_TTL).as_deref(), Some("acc"));
    assert!(a.has_active_binding_to_at("acc", 5 + BINDING_TTL));
    assert!(!a.has_active_binding_to_at("acc", 6 + BINDING_TTL));
    assert_eq!(a.lookup_at("s", |_| true, 6 + BINDING_TTL), None);
    assert!(a.snapshot().is_empty());
}

#[test]
fn account_that_is_turned_down_loses_the_session() {
    let mut a = SessionAffinity::new();
    a.record_cache_hit_at("s", "acc", 0, 0);
    assert_eq!(a.lookup_at("s", |id| id != "acc", 1), None);
    assert_eq!(a.lookup_at("s", |_| true, 1), None);
}

#[test]
fn hits_are_counted_and_only_late_ones_prolong() {
    let mut a = SessionAffinity::new();
    a.record_cache_hit_at("s", "acc", 10, 0);
    a.record_cache_hit_at("s", "acc", 5, RECENT_DEBOUNCE - 1);
    a.record_cache_hit_at("s", "acc", -7, RECENT_DEBOUNCE - 1);
    let shown = a.snapshot_at(90 * SECOND);
    assert_eq!(shown.len(), 1);
    assert_eq!(shown[0].session_key, "s");
    assert_eq!(shown[0].account_id, "acc");
    assert_eq!(shown[0].age_secs, 90);
    assert_eq!(shown[0].hit_count, 3);
    assert_eq!(shown[0].total_cached_tokens, 15);
    assert!(!a.has_active_binding_to_at("acc", BINDING_TTL + 1));
    a.record_cache_hit_at("s", "acc", 0, RECENT_DEBOUNCE);
    assert!(a.has_active_binding_to_at("acc", BINDING_TTL + RECENT_DEBOUNCE));
}

#[test]
fn another_account_takes_the_session_over() {
    let mut a = SessionAffinity::new();
    a.record_cache_hit_at("s", "one", 9, 0);
    a.record_cache_hit_at("s", "two", -1, SECOND);
    let shown = a.snapshot_at(2 * SECOND);
    assert_eq!(shown.len(), 1);
    assert_eq!(shown[0].account_id, "two");
    assert_eq!((shown[0].age_secs, shown[0].hit_count, shown[0].total_cached_tokens), (1, 1, 0));
}

#[test]
fn totals_stop_at_the_most_there_can_be() {
    let mut a = SessionAffinity::new();
    a.record_cache_hit_at("s", "acc", i64::MAX, 0);
    a.record_cache_hit_at("s", "acc", 1, 0);
    assert_eq!(a.snapshot_at(0)[0].total_cached_tokens, i64::MAX);
}

#[test]
fn invalidated_account_serves_nobody() {
    let mut a = SessionAffinity::new();
    a.record_cache_hit("s", "one", 0);
    a.record_cache_hit("t", "one", 0);
    a.record_cache_hit("u", "two", 0);
    a.invalidate_account("one");
    assert!(!a.has_active_binding_to("one"));
    assert_eq!(a.lookup("u", |_| true).as_deref(), Some("two"));
    assert_eq!(a.snapshot().len(), 1);
}

#[test]
fn dropping_the_expired_leaves_the_others() {
    let mut a = SessionAffinity::new();
    a.record_cache_hit_at("old", "one", 0, 0);
    a.record_cache_hit_at("new", "two", 0, BINDING_TTL);
    a.gc_at(BINDING_TTL + 1);
    let shown = a.snapshot_at(BINDING_TTL + 1);
    assert_eq!(shown.len(), 1);
    assert_eq!(shown[0].session_key, "new");
    let mut fresh = SessionAffinity::new();
    fresh.record_cache_hit("s", "a", 0);
    fresh.gc();
    assert_eq!(fresh.snapshot().len(), 1);
}

fn headers(pairs: &[(&'static str, &'static str)]) -> reqwest::header::HeaderMap {
    let mut map = reqwest::header::HeaderMap::new();
    for (name, value) in pairs {
        map.append(*name, reqwest::header::HeaderValue::from_static(value));
    }
    map
}

#[test]
fn key_goes_by_the_order_of_its_places() {
    let h = headers(&[("session-id", "dash"), ("x-session-id", "x")]);
    let none = headers(&[]);
    let all = br#"{"prompt_cache_key":"p","previous_response_id":"r","input":"i"}"#;
    assert_eq!(extract_session_key(all, &h).as_deref(), Some("pck:p"));
    let prev = br#"{"prompt_cache_key":"","previous_response_id":"r","input":"i"}"#;
    assert_eq!(extract_session_key(prev, &h).as_deref(), Some("prev:r"));
    let input = br#"{"input":"i"}"#;
    assert_eq!(extract_session_key(input, &h).as_deref(), Some("hdr:dash"));
    assert_eq!(extract_session_key(b"not json", &h).as_deref(), Some("hdr:dash"));
    assert_eq!(extract_session_key(b"not json", &none), None);
    assert_eq!(extract_session_key(b"{}", &none), None);
}

#[test]
fn header_names_are_tried_in_turn() {
    let h = headers(&[("Session_id", ""), ("x-session-id", "x")]);
    assert_eq!(extract_session_key(b"", &h).as_deref(), Some("hdr:x"));
    let h = headers(&[("SESSION_ID", "under"), ("session-id", "dash")]);
    assert_eq!(extract_session_key(b"", &h).as_deref(), Some("hdr:under"));
    let mut h = reqwest::header::HeaderMap::new();
    h.insert("session_id", reqwest::header::HeaderValue::from_bytes(b"\xff").unwrap());
    assert_eq!(extract_session_key(b"", &h), None);
}

fn hash_key(model: &str, prompt: &str) -> String {
    let mut hasher = std::collections::hash_map::DefaultHasher::new();
    model.hash(&mut hasher);
    prompt.hash(&mut hasher);
    format!("hash:{:016x}", hasher.finish())
}

#[test]
fn input_is_hashed_with_the_model() {
    let none = headers(&[]);
    let key = |body: &str| extract_session_key(body.as_bytes(), &none);
    assert_eq!(key(r#"{"model":"m","input":"hi"}"#), Some(hash_key("m", "hi")));
    assert_eq!(key(r#"{"input":"hi"}"#), Some(hash_key("", "hi")));
    assert_eq!(key(r#"{"input":[{"content":"hi"},{"content":"no"}]}"#), Some(hash_key("", "hi")));
    assert_eq!(
        key(r#"{"input":[{"content":[{"type":"image"},{"text":"hi"},{"text":"no"}]}]}"#),
        Some(hash_key("", "hi"))
    );
    assert_eq!(key(r#"{"input":""}"#), None);
    assert_eq!(key(r#"{"input":[]}"#), None);
    assert_eq!(key(r#"{"input":[{"content":7}]}"#), None);
    assert_eq!(key(r#"{"input":{"content":"hi"}}"#), None);
    let long = "中".repeat(300);
    assert_eq!(
        key(&format!(r#"{{"input":"{}"}}"#, long)),
        Some(hash_key("", &"中".repeat(256)))
    );
}

#[test]
fn key_of_a_document_and_headers() {
    let doc = Some(read_json_text(r#"{"prompt_cache_key":7}"#).unwrap());
    let given = vec![None, Some("".to_string()), Some("h".to_string())];
    assert_eq!(session_key(&doc, &given).as_deref(), Some("hdr:h"));
    assert_eq!(session_key(&None, &vec![None]), None);
}
