use codex_switcher::figures::{figure_text, numeric_texts, parse_whole};
use codex_switcher::json::{comes_before, put_member, read_json, read_json_text, Json};
use codex_switcher::quota_snapshot::QuotaSnapshot;
use codex_switcher::table::Table;
use codex_switcher::text::{
    has_text, is_whitespace, list_has, split, split_once, take_before, take_head,
    to_ascii_lowercase, trim, trim_end, write_decimal, write_hex, Edge,
};
use codex_switcher::tray::{
    hides_when_left, is_popup_pinned, on_click, on_menu, set_popup_pinned, tooltip, ClickAction,
    MenuAction, Popup, TrayAccount,
};
use codex_switcher::usage::UsageDisplay;

#[test]
fn white_space_is_what_unicode_says() {
    for n in 0..=0x10ffffu32 {
        if let Some(c) = char::from_u32(n) {
            assert_eq!(is_whitespace(c), c.is_whitespace(), "{:x}", n);
        }
    }
}

#[test]
fn texts_are_searched_and_cut() {
    assert!(has_text("abcabd", "abd") && has_text("x", "") && !has_text("ab", "abc"));
    assert_eq!(to_ascii_lowercase("ÄbC"), "Äbc");
    assert_eq!(trim("  a b\u{3000}", Edge::Space), "a b");
    assert_eq!(trim("''a'\"", Edge::Quote), "a");
    assert_eq!(trim("\\`x`", Edge::ShellQuote), "x");
    assert_eq!(trim_end("/a//", Edge::Slash), "/a");
    assert_eq!(take_before("a=b=c", '='), "a");
    assert_eq!(split_once("a=b=c", '='), Some(("a".to_string(), "b=c".to_string())));
    assert_eq!(split_once("abc", '='), None);
    assert_eq!(split("a,,b,", ','), vec!["a", "", "b", ""]);
    assert_eq!(split("", ','), vec![""]);
    assert_eq!(take_head("中文字", 2), "中文");
    assert!(list_has(&vec!["a".to_string()], "a") && !list_has(&Vec::new(), "a"));
}

#[test]
fn numbers_are_written() {
    assert_eq!(write_decimal(0), "0");
    assert_eq!(write_decimal(-120), "-120");
    assert_eq!(write_decimal(i64::MIN as i128), i64::MIN.to_string());
    assert_eq!(write_hex(0xbeef, 4, true), "BEEF");
    assert_eq!(write_hex(0xa, 3, false), "00a");
}

#[test]
fn whole_numbers_are_read_as_the_standard_library_does() {
    for text in [
        "", "+", "-", "0", "-0", "+7", "--7", "12a", " 1", "1.5", "9223372036854775807",
        "9223372036854775808", "-9223372036854775808", "-9223372036854775809", "007",
        "99999999999999999999999999999999999999999999", "１",
    ] {
        assert_eq!(parse_whole(text), text.parse::<i64>().ok(), "{}", text);
    }
}

#[test]
fn documents_are_read() {
    let doc = read_json(br#"{"b":[1,-2,1.50,18446744073709551615,"t",null,true],"a":{}}"#).unwrap();
    let items = doc.get("b").unwrap().as_array().unwrap();
    assert_eq!(items[0].as_i64(), Some(1));
    assert_eq!(items[1].number_text().as_deref(), Some("-2"));
    assert_eq!(items[2].number_text().as_deref(), Some("1.5"));
    assert_eq!(items[2].as_i64(), None);
    assert_eq!(items[3], Json::Decimal("18446744073709551615".to_string()));
    assert_eq!(items[4].as_str(), Some("t"));
    assert_eq!(items[5], Json::Null);
    assert_eq!(items[6].as_bool(), Some(true));
    assert!(doc.get("a").unwrap().is_object());
    assert!(doc.get("c").is_none() && items[0].get("x").is_none());
    assert!(read_json(b"\xff").is_err());
    assert!(read_json_text("[1,]").unwrap_err().contains("line 1"));
    assert_eq!(doc.clone(), doc);
}

#[test]
fn members_stand_in_order() {
    let mut members = Vec::new();
    for (i, name) in ["b", "a", "c", "b"].into_iter().enumerate() {
        put_member(&mut members, name, Json::Int(i as i64));
    }
    let names: Vec<&str> = members.iter().map(|m| m.0.as_str()).collect();
    assert_eq!(names, vec!["a", "b", "c"]);
    assert_eq!(members[1].1, Json::Int(3));
    assert!(comes_before("a", "ab") && comes_before("Z", "a") && !comes_before("a", "a"));
}

#[test]
fn figures_of_a_document_are_listed() {
    let doc = read_json_text(r#"{"x":[1,"2",true],"y":{"z":3.5}}"#).unwrap();
    assert_eq!(numeric_texts(&doc), vec!["1", "2", "3.5"]);
    assert_eq!(figure_text(&Json::Null), None);
}

#[test]
fn tables_hold_one_value_under_a_name() {
    let mut t: Table<i32> = Table::new();
    t.insert("a".to_string(), 1);
    t.insert("b".to_string(), 2);
    t.insert("a".to_string(), 3);
    assert_eq!(t.len(), 2);
    assert_eq!(t.get("a"), Some(&3));
    assert_eq!(t.entry(1).1, &2);
    if let Some(v) = t.get_mut("b") {
        *v = 9;
    }
    assert_eq!(t.get("b"), Some(&9));
    t.retain(|v| *v > 5);
    assert!(t.contains_key("b") && !t.contains_key("a"));
    assert_eq!(t.remove("b"), Some(9));
    assert_eq!(t.remove("b"), None);
}

#[test]
fn samples_are_taken_of_usage() {
    let usage = UsageDisplay {
        plan_type: "plus".to_string(),
        five_hour_used: 12,
        five_hour_left: 88,
        five_hour_label: String::new(),
        five_hour_reset: String::new(),
        five_hour_reset_at: Some(5),
        weekly_used: 34,
        weekly_left: 66,
        weekly_label: String::new(),
        weekly_reset: String::new(),
        weekly_reset_at: None,
        credits_balance: None,
        has_credits: false,
        is_valid_for_cli: true,
    };
    let s = QuotaSnapshot::from_usage("id", "e@x", &usage, "switch_out");
    assert_eq!((s.account_id.as_str(), s.email.as_str(), s.plan_type.as_str()), ("id", "e@x", "plus"));
    assert_eq!((s.five_hour_used_pct, s.weekly_used_pct), (12, 34));
    assert_eq!((s.five_hour_reset_at, s.weekly_reset_at), (Some(5), None));
    assert_eq!(s.trigger, "switch_out");
    assert!(s.ts.secs > 1_600_000_000 && s.ts.nanos < 1_000_000_000);
}

#[test]
fn popup_goes_when_left_unless_pinned() {
    let mut popup = Popup::new();
    assert!(!is_popup_pinned(&popup) && hides_when_left(&popup));
    set_popup_pinned(&mut popup, true);
    assert!(is_popup_pinned(&popup) && !hides_when_left(&popup));
    set_popup_pinned(&mut popup, false);
    assert!(!is_popup_pinned(&popup));
}

#[test]
fn clicks_and_menu_entries_do_what_they_say() {
    assert_eq!(on_click(false, false), ClickAction::Create);
    assert_eq!(on_click(true, true), ClickAction::Hide);
    assert_eq!(on_click(true, false), ClickAction::Show);
    assert_eq!(on_menu("show_main_window"), MenuAction::ShowMainWindow);
    assert_eq!(on_menu("quit_app"), MenuAction::Quit);
    assert_eq!(on_menu("other"), MenuAction::Nothing);
}

#[test]
fn icon_tells_the_account_in_use() {
    assert_eq!(tooltip(false, &None), "Codex Switcher - 未登录");
    assert_eq!(tooltip(true, &None), "Codex Switcher");
    let mut account = TrayAccount { name: "me".to_string(), quota: None };
    assert_eq!(tooltip(true, &Some(account.clone())), "Codex Switcher - me");
    account.quota = Some(("88".to_string(), "5".to_string()));
    assert_eq!(tooltip(true, &Some(account)), "Codex Switcher - me | 5H: 88%  周: 5%");
}
