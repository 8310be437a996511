use codex_switcher::clock::Timestamp;
use codex_switcher::codex_sessions::{
    clean_user_text, is_rollout_name, list_codex_sessions, parse_session_head, pick_active,
    pick_latest, select_sessions, CodexSession, SessionHead, MOST_DAYS,
};
use codex_switcher::json::read_json_text;

fn at(secs: i64) -> Timestamp {
    Timestamp { secs, nanos: 0 }
}

fn session(id: &str, secs: i64, cwd: Option<&str>) -> CodexSession {
    CodexSession {
        session_id: id.to_string(),
        rollout_path: format!("/{}.jsonl", id),
        started_at: at(secs),
        cwd: cwd.map(|c| c.to_string()),
        cli_version: None,
        first_user_text: None,
        model: None,
    }
}

fn ids(list: &[CodexSession]) -> Vec<String> {
    list.iter().map(|s| s.session_id.clone()).collect()
}

#[test]
fn clean_user_text_collapses_whitespace_and_truncates() {
    let s = "hello\n\nworld\t   foo";
    assert_eq!(clean_user_text(s), "hello world foo");
    let long = "a".repeat(300);
    assert_eq!(clean_user_text(&long).len(), 200);
}

#[test]
fn clean_user_text_handles_multibyte() {
    let zh = "中".repeat(250);
    let cleaned = clean_user_text(&zh);
    assert_eq!(cleaned.chars().count(), 200);
}

#[test]
fn clean_user_text_trims_all_kinds_of_space() {
    assert_eq!(clean_user_text("\u{3000} \r\n a\u{a0}\u{a0}b \u{2003}"), "a\u{a0}\u{a0}b");
    assert_eq!(clean_user_text(" \t\n"), "");
    let edge = format!("{} b", "a".repeat(199));
    assert_eq!(clean_user_text(&edge), format!("{} ", "a".repeat(199)));
}

const META: &str = r#"{"type":"session_meta","timestamp":"2026-01-01T00:00:00Z","payload":{"id":"sid","cwd":"/w","cli_version":"1.2","timestamp":"2026-05-04T10:00:00.5Z"}}"#;

#[test]
fn head_of_a_file_is_read() {
    let rest = vec![
        "not json\n".to_string(),
        r#"{"type":"event_msg","payload":{"type":"user_message","message":"hi\n there"}}"#.to_string(),
        r#"{"type":"event_msg","payload":{"type":"user_message","message":"second"}}"#.to_string(),
        r#"{"type":"turn_context","payload":{"model":""}}"#.to_string(),
        r#"{"type":"turn_context","payload":{"model":"gpt"}}"#.to_string(),
        r#"{"type":"turn_context","payload":{"model":"later"}}"#.to_string(),
    ];
    let s = parse_session_head(META, &rest, "/p.jsonl").unwrap();
    assert_eq!(s.session_id, "sid");
    assert_eq!(s.rollout_path, "/p.jsonl");
    assert_eq!(s.started_at, Timestamp { secs: 1_777_888_800, nanos: 500_000_000 });
    assert_eq!(s.cwd.as_deref(), Some("/w"));
    assert_eq!(s.cli_version.as_deref(), Some("1.2"));
    assert_eq!(s.first_user_text.as_deref(), Some("hi there"));
    assert_eq!(s.model.as_deref(), Some("gpt"));
}

#[test]
fn only_twenty_lines_are_looked_through() {
    let mut rest: Vec<String> = (0..19).map(|_| "{}".to_string()).collect();
    rest.push(r#"{"payload":{"model":"in"}}"#.to_string());
    let s = parse_session_head(META, &rest, "p").unwrap();
    assert_eq!(s.model.as_deref(), Some("in"));
    rest.insert(0, "{}".to_string());
    let s = parse_session_head(META, &rest, "p").unwrap();
    assert_eq!(s.model, None);
}

#[test]
fn a_file_that_starts_otherwise_is_no_session() {
    let none = Vec::new();
    for first in [
        "",
        "nope",
        r#"{"type":"event_msg","payload":{"id":"x"}}"#,
        r#"{"type":"session_meta"}"#,
        r#"{"type":"session_meta","payload":{"id":""}}"#,
        r#"{"type":"session_meta","payload":{"id":7}}"#,
    ] {
        assert!(parse_session_head(first, &none, "p").is_none());
    }
}

#[test]
fn start_is_looked_for_in_two_places() {
    let now = at(7);
    let top = r#"{"type":"session_meta","timestamp":"1970-01-01T00:01:00Z","payload":{"id":"x"}}"#;
    let head = SessionHead::of_document(&read_json_text(top).unwrap(), "p", now).unwrap();
    assert_eq!(head.session.started_at, at(60));
    let bad = r#"{"type":"session_meta","timestamp":"1970-01-01T00:01:00Z","payload":{"id":"x","timestamp":"?"}}"#;
    let head = SessionHead::of_document(&read_json_text(bad).unwrap(), "p", now).unwrap();
    assert_eq!(head.session.started_at, now);
}

#[test]
fn reading_stops_once_everything_is_known() {
    let mut head = SessionHead::begin(META, "p").unwrap();
    assert!(head.wants_more());
    head.feed(r#"{"type":"event_msg","payload":{"type":"user_message","message":"m","model":"x"}}"#);
    assert!(!head.wants_more());
    assert_eq!(head.lines, 1);
}

#[test]
fn list_is_filtered_sorted_and_limited() {
    let found = vec![
        session("a", 1_000_000, Some("/Home/Proj")),
        session("b", 3_000_000, Some("/home/other")),
        session("c", 2_000_000, Some("/home/PROJ/x")),
        session("d", 2_000_000, None),
    ];
    let now = at(1_000_000 + 14 * 86_400);
    assert_eq!(ids(&select_sessions(&found, None, None, None, now)), ["b", "c", "d", "a"]);
    assert_eq!(ids(&select_sessions(&found, Some(2), None, None, now)), ["b", "c"]);
    assert_eq!(ids(&select_sessions(&found, None, Some("proj"), None, now)), ["c", "a"]);
    assert_eq!(ids(&select_sessions(&found, None, Some(""), None, now)), ["b", "c", "d", "a"]);
    let later = at(1_000_001 + 14 * 86_400);
    assert_eq!(ids(&select_sessions(&found, None, None, None, later)), ["b", "c", "d"]);
    assert_eq!(ids(&select_sessions(&found, None, None, Some(0), at(2_000_001))), ["b"]);
    assert_eq!(ids(&select_sessions(&found, Some(0), None, None, now)), Vec::<String>::new());
}

#[test]
fn list_goes_back_fourteen_days_from_now() {
    let many: Vec<CodexSession> =
        (0..60).map(|i| session(&i.to_string(), 4_000_000_000 + i, None)).collect();
    let listed = list_codex_sessions(&many, None, None, None);
    assert_eq!(listed.len(), 50);
    assert_eq!(listed[0].session_id, "59");
    assert!(list_codex_sessions(&vec![session("old", 0, None)], None, None, None).is_empty());
}

#[test]
fn rollout_files_are_told_by_their_names() {
    assert!(is_rollout_name("rollout-2026-x.jsonl"));
    assert!(!is_rollout_name("rollout-2026-x.json"));
    assert!(!is_rollout_name("x-rollout-1.jsonl"));
    assert!(!is_rollout_name("rollout-"));
}

#[test]
fn active_file_is_the_newest_in_the_window() {
    let now = at(1_000);
    let times = vec![Some(at(900)), None, Some(at(990)), Some(at(990)), Some(at(100))];
    assert_eq!(pick_active(&times, now, 60), Some(2));
    assert_eq!(pick_active(&times, now, 10), Some(2));
    assert_eq!(pick_active(&times, now, 9), None);
    assert_eq!(pick_active(&vec![Some(at(2_000))], now, 0), Some(0));
    let part = Timestamp { secs: 989, nanos: 1 };
    assert_eq!(pick_active(&vec![Some(part)], now, 10), Some(0));
    assert_eq!(pick_active(&vec![Some(at(989))], now, 10), None);
}

#[test]
fn latest_file_is_the_newest_of_all() {
    assert_eq!(pick_latest(&vec![Some(at(-5)), Some(at(7)), None, Some(at(7))]), Some(1));
    assert_eq!(pick_latest(&vec![None]), None);
    assert_eq!(pick_latest(&Vec::new()), None);
}

#[test]
fn list_may_go_back_as_far_as_time_goes() {
    assert!(list_codex_sessions(&Vec::new(), None, None, Some(MOST_DAYS)).is_empty());
}
