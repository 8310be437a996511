use codex_switcher::clock::Timestamp;
use codex_switcher::session_routes::{SessionRoute, SessionRoutesStore};

fn at(secs: i64) -> Timestamp {
    Timestamp { secs, nanos: 0 }
}

#[test]
fn add_upserts_same_session_id_and_preserves_hit_count() {
    let mut store = SessionRoutesStore::default_with_version();
    let r1 = store.add(
        "session-A".to_string(),
        "acc-1".to_string(),
        Some("旧 label".to_string()),
    );
    store.record_hit(&r1.id);
    store.record_hit(&r1.id);
    store.record_hit(&r1.id);
    let r1_after = store.routes.get(&r1.id).cloned().unwrap();
    assert_eq!(r1_after.hit_count, 3);
    assert!(r1_after.last_hit_at.is_some());

    let r2 = store.add(
        "session-A".to_string(),
        "acc-2".to_string(),
        Some("新 label".to_string()),
    );
    assert_eq!(r2.id, r1.id);
    assert_eq!(r2.hit_count, 3);
    assert_eq!(r2.last_hit_at, r1_after.last_hit_at);
    assert_eq!(r2.account_id, "acc-2");
    assert_eq!(r2.label.as_deref(), Some("新 label"));
    assert_eq!(store.routes.len(), 1);
}

#[test]
fn add_creates_new_route_for_different_session_id() {
    let mut store = SessionRoutesStore::default_with_version();
    let _r1 = store.add("session-A".to_string(), "acc-1".to_string(), None);
    let _r2 = store.add("session-B".to_string(), "acc-2".to_string(), None);
    assert_eq!(store.routes.len(), 2);
}

#[test]
fn delete_removes() {
    let mut store = SessionRoutesStore::default_with_version();
    let r = store.add("session-A".to_string(), "acc-1".to_string(), None);
    assert!(store.delete(&r.id));
    assert!(!store.delete(&r.id));
    assert_eq!(store.routes.len(), 0);
}

#[test]
fn toggle_changes_enabled() {
    let mut store = SessionRoutesStore::default_with_version();
    let r = store.add("session-A".to_string(), "acc-1".to_string(), None);
    assert!(store.routes.get(&r.id).unwrap().enabled);
    assert!(store.toggle(&r.id, false));
    assert!(!store.routes.get(&r.id).unwrap().enabled);
    assert!(store.toggle(&r.id, true));
    assert!(store.routes.get(&r.id).unwrap().enabled);
    assert!(!store.toggle("nope", true));
}

#[test]
fn find_enabled_by_session_ignores_disabled() {
    let mut store = SessionRoutesStore::default_with_version();
    let r = store.add("session-A".to_string(), "acc-1".to_string(), None);
    assert!(store.find_enabled_by_session("session-A").is_some());
    store.toggle(&r.id, false);
    assert!(store.find_enabled_by_session("session-A").is_none());
}

#[test]
fn update_label_updates() {
    let mut store = SessionRoutesStore::default_with_version();
    let r = store.add("session-A".to_string(), "acc-1".to_string(), None);
    assert!(store.update_label(&r.id, Some("new".to_string())));
    assert_eq!(store.routes.get(&r.id).unwrap().label.as_deref(), Some("new"));
    assert!(store.update_label(&r.id, None));
    assert!(store.routes.get(&r.id).unwrap().label.is_none());
    assert!(!store.update_label("nope", None));
}

#[test]
fn new_routes_have_ids_of_their_own() {
    let a = SessionRoute::new("s".to_string(), "a".to_string(), None);
    let b = SessionRoute::new("s".to_string(), "a".to_string(), None);
    assert_eq!(a.id.len(), 36);
    assert_ne!(a.id, b.id);
    assert_eq!(a.id.chars().filter(|c| *c == '-').count(), 4);
    assert!(a.enabled && a.hit_count == 0 && a.last_hit_at.is_none());
    assert!(a.created_at.secs > 1_600_000_000);
}

#[test]
fn adding_switches_a_route_on_again() {
    let mut store = SessionRoutesStore::default_with_version();
    let r = store.add_at("s".into(), "a".into(), None, "id".into(), at(1));
    assert_eq!(r.id, "id");
    store.toggle("id", false);
    let again = store.add_at("s".into(), "b".into(), None, "other".into(), at(2));
    assert_eq!(again.id, "id");
    assert!(again.enabled);
    assert_eq!(again.created_at, at(2));
    assert_eq!(store.find_enabled_by_session("s").unwrap().account_id, "b");
    assert!(!store.routes.contains_key("other"));
}

#[test]
fn list_is_newest_first() {
    let mut store = SessionRoutesStore::default_with_version();
    store.add_at("a".into(), "x".into(), None, "1".into(), at(10));
    store.add_at("b".into(), "x".into(), None, "2".into(), at(30));
    store.add_at("c".into(), "x".into(), None, "3".into(), Timestamp { secs: 10, nanos: 5 });
    let ids: Vec<String> = store.list().into_iter().map(|r| r.id).collect();
    assert_eq!(ids, vec!["2", "3", "1"]);
}

#[test]
fn hits_are_counted_up_to_the_most_there_can_be() {
    let mut store = SessionRoutesStore::default_with_version();
    let mut route = SessionRoute::new_at("id".into(), "s".into(), "a".into(), None, at(1));
    route.hit_count = u64::MAX;
    store.routes.insert("id".to_string(), route);
    store.record_hit_at("id", at(7));
    store.record_hit_at("nope", at(8));
    let r = store.routes.get("id").unwrap();
    assert_eq!(r.hit_count, u64::MAX);
    assert_eq!(r.last_hit_at, Some(at(7)));
}

#[test]
fn loading_falls_back_to_nothing_and_names_a_version() {
    let fresh = SessionRoutesStore::load(None);
    assert_eq!(fresh.version, 1);
    assert_eq!(fresh.routes.len(), 0);
    let mut old = SessionRoutesStore::default();
    assert_eq!(old.version, 0);
    old.add("s".into(), "a".into(), None);
    let loaded = SessionRoutesStore::load(Some(old));
    assert_eq!(loaded.version, 1);
    assert_eq!(loaded.routes.len(), 1);
    let mut newer = SessionRoutesStore::default();
    newer.version = 3;
    assert_eq!(SessionRoutesStore::load(Some(newer)).version, 3);
}

#[test]
fn ids_are_random_uuids() {
    let mut store = SessionRoutesStore::default_with_version();
    let a = store.add("session-A".to_string(), "acc-1".to_string(), None);
    let b = SessionRoute::new("session-B".to_string(), "acc-2".to_string(), None);
    for id in [&a.id, &b.id] {
        assert_eq!(id.len(), 36);
        for (i, c) in id.chars().enumerate() {
            match i {
                8 | 13 | 18 | 23 => assert_eq!(c, '-'),
                14 => assert_eq!(c, '4'),
                _ => assert!(c.is_ascii_digit() || ('a'..='f').contains(&c)),
            }
        }
    }
    assert_ne!(a.id, b.id);
}
