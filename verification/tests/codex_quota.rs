use codex_switcher::account::{Account, AccountStore};
use codex_switcher::clock::Timestamp;
use codex_switcher::codex_quota::{
    apply_snapshot, apply_snapshot_at, awaits_snapshot, follow, limits_label, parse_rate_limits,
    read_new_snapshots, reset_text, reset_text_at, resolve_target_account_id, snapshot_in_bounds,
    snapshot_to_usage, RateLimitSnapshot, RolloutCursor, WindowSnapshot,
};
use codex_switcher::figures::{numeric_texts, Reading, Readings};
use codex_switcher::json::read_json_text;
use codex_switcher::table::Table;

fn reading(f: f64) -> Reading {
    Reading {
        rounded: f.round() as i32,
        whole: f as i64,
        ceiling: f.ceil() as i32,
        left_of_hundred: (100.0 - f.clamp(0.0, 100.0)).floor() as i32,
        finite: f.is_finite(),
        positive: f > 0.0,
    }
}

fn readings(texts: &[&str]) -> Readings {
    let mut table: Readings = Table::new();
    for text in texts {
        if let Ok(doc) = read_json_text(text.trim()) {
            for figure in numeric_texts(&doc) {
                if let Ok(f) = figure.parse::<f64>() {
                    table.insert(figure, reading(f));
                }
            }
        }
    }
    table
}

fn parse(text: &str) -> Option<RateLimitSnapshot> {
    parse_rate_limits(&read_json_text(text).unwrap(), &readings(&[text]))
}

const LINE: &str = r#"{"payload":{"rate_limits":{"primary":{"used_percent":12.3,"resets_at":5000,"window_minutes":300},"secondary":{"used_percent":"50","resets_at":"9000.5","window_minutes":10080.7},"plan_type":" plus ","credits":{"has_credits":true,"balance":"7.5"}}}}"#;

#[test]
fn limits_are_read_from_a_line() {
    let s = parse(LINE).unwrap();
    assert_eq!(
        s.primary,
        WindowSnapshot { used: 13, left: 87, reset_at: Some(5_000), window_minutes: Some(300) }
    );
    assert_eq!(
        s.secondary,
        WindowSnapshot { used: 50, left: 50, reset_at: None, window_minutes: Some(10_080) }
    );
    assert_eq!(s.plan_type.as_deref(), Some("plus"));
    assert!(s.has_credits);
    assert_eq!(s.credits_balance.as_deref(), Some("7.5"));
}

#[test]
fn limits_may_stand_at_the_top() {
    let s = parse(r#"{"rate_limits":{"primary":{"used_percent":-5},"secondary":{"used_percent":250,"resets_at":"+7"},"plan_type":"  ","credits":{"unlimited":true}}}"#).unwrap();
    assert_eq!((s.primary.used, s.primary.left), (0, 100));
    assert_eq!((s.secondary.used, s.secondary.left), (100, 0));
    assert_eq!(s.secondary.reset_at, Some(7));
    assert_eq!(s.plan_type, None);
    assert!(s.has_credits);
    assert_eq!(s.credits_balance, None);
}

#[test]
fn lines_that_say_too_little_say_nothing() {
    for text in [
        "{}",
        r#"{"rate_limits":{"primary":{"used_percent":1}}}"#,
        r#"{"rate_limits":{"primary":null,"secondary":{"used_percent":1}}}"#,
        r#"{"rate_limits":{"primary":{"used_percent":1},"secondary":{"used_percent":"NaN"}}}"#,
        r#"{"rate_limits":{"primary":{"used_percent":"inf"},"secondary":{"used_percent":1}}}"#,
        r#"{"rate_limits":{"primary":{"used_percent":[]},"secondary":{"used_percent":1}}}"#,
    ] {
        assert!(parse(text).is_none(), "{}", text);
    }
}

#[test]
fn new_lines_are_read_once() {
    let lines = vec![
        format!("{}\n", LINE),
        "\n".to_string(),
        "garbage 中\n".to_string(),
        "{}\n".to_string(),
        "{\"payl".to_string(),
    ];
    let table = readings(&[LINE]);
    let mut cursor = RolloutCursor { path: "p".to_string(), offset: 10 };
    let snaps = read_new_snapshots(&mut cursor, &lines, &table);
    assert_eq!(snaps.len(), 1);
    assert_eq!(cursor.offset, 10 + LINE.len() as u64 + 1 + 1 + 12 + 3);
    assert_eq!(cursor.path, "p");
    let rest = vec![LINE.to_string()];
    assert_eq!(read_new_snapshots(&mut cursor, &rest, &table).len(), 1);
    assert!(read_new_snapshots(&mut cursor, &Vec::new(), &table).is_empty());
}

#[test]
fn files_are_followed() {
    let c = follow(None, "a");
    assert_eq!((c.path.as_str(), c.offset), ("a", 0));
    let c = follow(Some(RolloutCursor { path: "a".into(), offset: 9 }), "a");
    assert_eq!(c.offset, 9);
    let mut c = follow(Some(RolloutCursor { path: "a".into(), offset: 9 }), "b");
    assert_eq!((c.path.as_str(), c.offset), ("b", 0));
    assert!(!c.due(0));
    c.offset = 5;
    assert!(!c.due(5));
    assert!(c.due(6));
    assert_eq!(c.offset, 5);
    assert!(c.due(3));
    assert_eq!(c.offset, 0);
}

#[test]
fn labels_go_by_minutes() {
    assert_eq!(limits_label(None, "x"), "x");
    assert_eq!(limits_label(Some(-1), "x"), "5H 限额");
    assert_eq!(limits_label(Some(310), "x"), "5H 限额");
    assert_eq!(limits_label(Some(1_500), "x"), "24H 限额");
    assert_eq!(limits_label(Some(10_140), "x"), "周限额");
    assert_eq!(limits_label(Some(10_141), "x"), "170H 限额");
}

#[test]
fn waits_are_put_into_words_by_days() {
    assert_eq!(reset_text_at(None, 0), "未知");
    assert_eq!(reset_text_at(Some(5), 10), "即将重置");
    assert_eq!(reset_text_at(Some(59), 0), "即将重置");
    assert_eq!(reset_text_at(Some(60), 0), "1分钟后重置");
    assert_eq!(reset_text_at(Some(86_399), 0), "23小时59分钟后重置");
    assert_eq!(reset_text_at(Some(86_400), 0), "1天后重置");
    assert_eq!(reset_text(Some(0)), "即将重置");
    assert!(reset_text(Some(i64::MAX)).ends_with("天后重置"));
}

fn account(name: &str, oauth: bool) -> Account {
    Account {
        name: name.to_string(),
        is_chatgpt_oauth: oauth,
        is_banned: false,
        is_token_invalid: false,
        is_logged_out: false,
        cached_quota: None,
    }
}

fn store() -> AccountStore {
    let mut s = AccountStore::new();
    s.put("sub".to_string(), account("Sub", true));
    s.put("relay".to_string(), account("Relay", false));
    s.put("disk".to_string(), account("Disk", true));
    s
}

fn ids(list: &[&str]) -> Vec<String> {
    list.iter().map(|s| s.to_string()).collect()
}

#[test]
fn target_is_the_account_in_use_behind_the_proxy() {
    let mut s = store();
    s.current = Some("sub".to_string());
    s.proxy_enabled = true;
    assert_eq!(resolve_target_account_id(&s, &ids(&["disk"])).as_deref(), Some("sub"));
    s.proxy_enabled = false;
    assert_eq!(resolve_target_account_id(&s, &ids(&["disk"])).as_deref(), Some("disk"));
    assert_eq!(resolve_target_account_id(&s, &ids(&[])).as_deref(), Some("sub"));
    assert_eq!(resolve_target_account_id(&s, &ids(&["gone", "relay"])).as_deref(), Some("sub"));
    s.current = Some("relay".to_string());
    s.proxy_enabled = true;
    assert_eq!(resolve_target_account_id(&s, &ids(&["disk"])).as_deref(), Some("disk"));
    assert_eq!(resolve_target_account_id(&s, &ids(&[])), None);
    s.current = None;
    assert_eq!(resolve_target_account_id(&s, &ids(&["relay"])), None);
}

fn at(secs: i64) -> Timestamp {
    Timestamp { secs, nanos: 0 }
}

#[test]
fn snapshot_counts_once() {
    let mut s = store();
    s.current = Some("sub".to_string());
    let snap = parse(LINE).unwrap();
    let news = apply_snapshot_at(&mut s, &snap, "/p", &ids(&[]), at(1_000)).unwrap();
    assert_eq!(news.account_id, "sub");
    assert_eq!(news.account_name, "Sub");
    assert_eq!(news.source_path, "/p");
    assert_eq!(news.observed_at, at(1_000));
    assert_eq!((news.usage.five_hour_used, news.usage.five_hour_left), (13, 87));
    assert_eq!(news.usage.five_hour_reset, "1小时6分钟后重置");
    assert_eq!(news.usage.plan_type, "plus");
    let kept = s.accounts.get("sub").unwrap().cached_quota.clone().unwrap();
    assert_eq!((kept.five_hour_left, kept.weekly_left), (87, 50));
    assert_eq!(kept.updated_at, at(1_000));
    assert!(apply_snapshot_at(&mut s, &snap, "/p", &ids(&[]), at(2_000)).is_none());
    assert_eq!(s.accounts.get("sub").unwrap().cached_quota.clone().unwrap().updated_at, at(1_000));
    assert!(s.accounts.get("disk").unwrap().cached_quota.is_none());
}

#[test]
fn plan_is_kept_where_a_snapshot_names_none() {
    let mut s = store();
    s.current = Some("sub".to_string());
    let mut snap = parse(LINE).unwrap();
    snap.plan_type = None;
    let first = apply_snapshot(&mut s, &snap, "/p", &ids(&[])).unwrap();
    assert_eq!(first.usage.plan_type, "unknown");
    snap.plan_type = Some("pro".to_string());
    assert_eq!(apply_snapshot(&mut s, &snap, "/p", &ids(&[])).unwrap().usage.plan_type, "pro");
    snap.plan_type = None;
    assert!(apply_snapshot(&mut s, &snap, "/p", &ids(&[])).is_none());
    snap.primary.reset_at = Some(6_000);
    assert_eq!(apply_snapshot(&mut s, &snap, "/p", &ids(&[])).unwrap().usage.plan_type, "pro");
}

#[test]
fn accounts_out_of_order_take_no_part() {
    let snap = parse(LINE).unwrap();
    for broken in 0..3 {
        let mut s = store();
        s.current = Some("sub".to_string());
        let a = s.accounts.get_mut("sub").unwrap();
        a.is_banned = broken == 0;
        a.is_token_invalid = broken == 1;
        a.is_logged_out = broken == 2;
        assert!(apply_snapshot(&mut s, &snap, "/p", &ids(&[])).is_none());
        assert!(s.accounts.get("sub").unwrap().cached_quota.is_none());
    }
    assert!(apply_snapshot(&mut store(), &snap, "/p", &ids(&[])).is_none());
}

#[test]
fn snapshots_are_shown() {
    let snap = parse(LINE).unwrap();
    assert!(snapshot_in_bounds(&snap));
    let u = snapshot_to_usage(&snap, "team", 0);
    assert_eq!(u.plan_type, "team");
    assert_eq!((u.five_hour_label.as_str(), u.weekly_label.as_str()), ("5H 限额", "周限额"));
    assert_eq!(u.weekly_reset, "未知");
    assert_eq!(u.credits_balance.as_deref(), Some("7.5"));
    assert!(u.has_credits && u.is_valid_for_cli);
}

#[test]
fn snapshots_out_of_bounds_are_noticed() {
    let mut snap = parse(LINE).unwrap();
    snap.primary.window_minutes = Some(i64::MAX);
    assert!(!snapshot_in_bounds(&snap));
    let mut snap = parse(LINE).unwrap();
    snap.secondary.reset_at = Some(i64::MIN);
    assert!(!snapshot_in_bounds(&snap));
    let mut nobody = AccountStore::new();
    assert!(!awaits_snapshot(&nobody, &Vec::new()));
    assert!(apply_snapshot(&mut nobody, &snap, "p", &Vec::new()).is_none());
}
