use codex_switcher::answer::Answer;
use codex_switcher::clock::Timestamp;
use codex_switcher::figures::{numeric_texts, Reading, Readings};
use codex_switcher::json::{read_json_text, Json};
use codex_switcher::table::Table;
use codex_switcher::usage::{
    MimoShare, RelayUsageCache, UsageAction, UsageEvent, UsageFetcher, UsageQuery, GLM_UNIT,
    MIMO_UNIT,
};

fn doc(text: &str) -> Json {
    read_json_text(text).unwrap()
}

fn reading(f: f64) -> Reading {
    Reading {
        rounded: f.round() as i32,
        whole: f as i64,
        ceiling: f.ceil() as i32,
        left_of_hundred: (100.0 - f.clamp(0.0, 100.0)).floor() as i32,
        finite: f.is_finite(),
        positive: f > 0.0,
    }
}

fn readings(doc: &Json) -> Readings {
    let mut table: Readings = Table::new();
    for text in numeric_texts(doc) {
        if let Ok(f) = text.parse::<f64>() {
            table.insert(text, reading(f));
        }
    }
    table
}

fn answer(status: u16, text: &str) -> Answer {
    Answer {
        status,
        body: text.as_bytes().to_vec(),
        text: text.to_string(),
        unreadable: "error decoding response body".to_string(),
    }
}

fn parse_relay_response(body: Json) -> Result<(f64, String, bool), String> {
    UsageFetcher::parse_relay_usage(&body).map(|(r, u, a)| (r.parse().unwrap(), u, a))
}

#[test]
fn relay_usage_top_level_fields() {
    let body = doc(r#"{"remaining": 12.5, "unit": "USD", "is_active": true}"#);
    let (r, u, a) = parse_relay_response(body).unwrap();
    assert_eq!(r, 12.5);
    assert_eq!(u, "USD");
    assert!(a);
}

#[test]
fn relay_usage_nested_quota() {
    let body = doc(r#"{"quota": {"remaining": 8.0, "unit": "CNY"}, "isValid": false}"#);
    let (r, u, a) = parse_relay_response(body).unwrap();
    assert_eq!(r, 8.0);
    assert_eq!(u, "CNY");
    assert!(!a);
}

#[test]
fn relay_usage_balance_alias_with_default_unit() {
    let body = doc(r#"{"balance": 1.23}"#);
    let (r, u, a) = parse_relay_response(body).unwrap();
    assert_eq!(r, 1.23);
    assert_eq!(u, "USD");
    assert!(a);
}

#[test]
fn relay_usage_missing_remaining_errors() {
    let body = doc(r#"{"unit": "USD"}"#);
    assert!(parse_relay_response(body).is_err());
}

#[test]
fn relay_usage_takes_numbers_only() {
    assert!(parse_relay_response(doc(r#"{"remaining":"12"}"#)).is_err());
    let (r, _, _) = parse_relay_response(doc(r#"{"remaining":"12","balance":18446744073709551615}"#)).unwrap();
    assert_eq!(r, 18446744073709551615.0);
    let (r, _, _) = parse_relay_response(doc(r#"{"remaining":-3}"#)).unwrap();
    assert_eq!(r, -3.0);
}

#[test]
fn relay_answer_is_kept_with_its_time() {
    let cache = UsageFetcher::relay_usage_openai_compat(&answer(200, r#"{"remaining":1}"#), "u").unwrap();
    assert_eq!((cache.remaining.as_str(), cache.unit.as_str(), cache.is_active), ("1", "USD", true));
    assert_eq!(cache.next_reset_at, None);
    assert!(cache.updated_at.secs > 1_600_000_000);
    let long = "é".repeat(300);
    assert_eq!(
        UsageFetcher::relay_usage_openai_compat(&answer(401, &long), "http://h/v1/usage").unwrap_err(),
        format!("HTTP 401 @ http://h/v1/usage → {}", "é".repeat(200))
    );
    assert_eq!(
        UsageFetcher::relay_usage_openai_compat(&answer(200, "<html>"), "u").unwrap_err(),
        "usage JSON 解析失败: error decoding response body"
    );
    assert_eq!(
        UsageFetcher::relay_usage_openai_compat(&answer(204, "{}"), "u").unwrap_err(),
        "上游响应缺 remaining/balance 字段"
    );
}

#[test]
fn relay_addresses_lose_their_slashes() {
    assert_eq!(UsageFetcher::usage_url("http://h//"), "http://h/v1/usage");
    assert_eq!(
        UsageFetcher::subscription_url("http://h"),
        "http://h/v1/dashboard/billing/subscription"
    );
    assert_eq!(UsageFetcher::billing_usage_url("http://h/"), "http://h/v1/dashboard/billing/usage");
}

#[test]
fn dashboard_gives_its_limit_and_what_was_used() {
    let ok = answer(200, r#"{"soft_limit_usd":10.5,"total_usage":123}"#);
    assert_eq!(UsageFetcher::subscription_limit(&ok, "u").unwrap(), "10.5");
    assert_eq!(UsageFetcher::billed_usage(&ok).unwrap().as_deref(), Some("123"));
    assert_eq!(
        UsageFetcher::subscription_limit(&answer(500, "no"), "u").unwrap_err(),
        "HTTP subscription @ u → no"
    );
    assert_eq!(
        UsageFetcher::subscription_limit(&answer(200, "no"), "u").unwrap_err(),
        "subscription JSON 解析失败: error decoding response body"
    );
    assert_eq!(
        UsageFetcher::subscription_limit(&answer(200, "{}"), "u").unwrap_err(),
        "subscription 缺 soft_limit_usd 字段"
    );
    assert_eq!(UsageFetcher::billed_usage(&answer(404, "no")).unwrap(), None);
    assert_eq!(UsageFetcher::billed_usage(&answer(200, "{}")).unwrap(), None);
    assert_eq!(
        UsageFetcher::billed_usage(&answer(200, "no")).unwrap_err(),
        "usage JSON 解析失败: error decoding response body"
    );
}

#[test]
fn probing_tries_the_dashboard_first() {
    let board = Some(answer(200, r#"{"hard_limit_usd":null}"#));
    let compat = Some(answer(200, r#"{"quota":{"remaining":0}}"#));
    let deny = Some(answer(401, r#"{"soft_limit_usd":1,"balance":1}"#));
    let nothing = Some(answer(200, "[]"));
    assert_eq!(UsageFetcher::probed_preset(&board, &compat).as_deref(), Some("new_api_dashboard"));
    assert_eq!(UsageFetcher::probed_preset(&deny, &compat).as_deref(), Some("openai_compat"));
    assert_eq!(UsageFetcher::probed_preset(&None, &compat).as_deref(), Some("openai_compat"));
    assert_eq!(UsageFetcher::probed_preset(&nothing, &deny), None);
    assert_eq!(UsageFetcher::probed_preset(&None, &None), None);
}

fn parse_glm_quota(body: Json) -> Option<f64> {
    let quota = UsageFetcher::parse_glm_quota(&body).ok()?;
    let used: f64 = quota.used_percent?.parse().unwrap();
    Some((100.0 - used).max(0.0))
}

#[test]
fn glm_quota_picks_tokens_limit_percentage() {
    let body = doc(
        r#"{
            "code": 200,
            "data": {
                "limits": [
                    {"type": "TIME_LIMIT", "percentage": 30, "remaining": 0.7},
                    {"type": "TOKENS_LIMIT", "percentage": 25}
                ]
            }
        }"#,
    );
    let pct = parse_glm_quota(body).unwrap();
    assert_eq!(pct, 75.0);
}

#[test]
fn glm_quota_skips_when_code_not_200() {
    let body = doc(r#"{"code": 401, "message": "unauthorized"}"#);
    assert!(parse_glm_quota(body).is_none());
}

#[test]
fn glm_quota_falls_back_to_any_limit() {
    let ok = answer(
        200,
        r#"{"code":200,"data":{"limits":[{"type":"TOKENS_LIMIT"},{"percentage":"x"},{"percentage":40,"nextResetTime":1234567890999},{"nextResetTime":5}]}}"#,
    );
    let quota = UsageFetcher::glm_quota(&ok, "u").unwrap();
    assert_eq!(quota.used_percent.as_deref(), Some("40"));
    assert_eq!(quota.next_reset_at, Some(1_234_567_890));
    let none = UsageFetcher::glm_quota(&answer(200, r#"{"code":200}"#), "u").unwrap();
    assert_eq!((none.used_percent, none.next_reset_at), (None, None));
    let past = doc(r#"{"code":200,"data":{"limits":[{"nextResetTime":-1999}]}}"#);
    assert_eq!(UsageFetcher::parse_glm_quota(&past).unwrap().next_reset_at, Some(-1));
    assert_eq!(GLM_UNIT, "% tokens");
}

#[test]
fn glm_errors_are_told_apart() {
    assert_eq!(
        UsageFetcher::glm_quota(&answer(200, r#"{"code":401,"message":"unauthorized"}"#), "u").unwrap_err(),
        "GLM code=401 msg=unauthorized"
    );
    assert_eq!(
        UsageFetcher::glm_quota(&answer(200, "{}"), "u").unwrap_err(),
        "GLM code=0 msg=non-200 code"
    );
    assert_eq!(UsageFetcher::glm_quota(&answer(500, "x"), "u").unwrap_err(), "HTTP 500 @ u → x");
    assert_eq!(
        UsageFetcher::glm_quota(&answer(200, "x"), "u").unwrap_err(),
        "usage JSON 解析失败: error decoding response body"
    );
}

#[test]
fn glm_is_asked_at_its_origin() {
    assert_eq!(
        UsageFetcher::glm_quota_url("https://open.bigmodel.cn/api/paas/v4").unwrap(),
        "https://open.bigmodel.cn/api/monitor/usage/quota/limit"
    );
    assert_eq!(
        UsageFetcher::glm_quota_url("HTTP://User@Host:8080/x?y").unwrap(),
        "http://host:8080/api/monitor/usage/quota/limit"
    );
    assert_eq!(
        UsageFetcher::glm_quota_url("https://h:443/").unwrap(),
        "https://h/api/monitor/usage/quota/limit"
    );
    assert_eq!(
        UsageFetcher::glm_quota_url("no address").unwrap_err(),
        "无法从 base_url 解析 origin: no address"
    );
    assert!(UsageFetcher::glm_quota_url("mailto:a@b").is_err());
}

#[test]
fn mimo_cookie_normalizer_keeps_required_console_cookies() {
    let raw = "Cookie: ignored=x; userId=123; api-platform_serviceToken=svc; api-platform_ph=ph";
    let normalized = UsageFetcher::normalize_mimo_cookie_header(raw).unwrap();
    assert_eq!(normalized, "api-platform_ph=ph; api-platform_serviceToken=svc; userId=123");
}

#[test]
fn mimo_cookie_normalizer_rejects_missing_auth_cookie() {
    assert!(UsageFetcher::normalize_mimo_cookie_header("Cookie: userId=123").is_none());
}

#[test]
fn mimo_cookie_normalizer_takes_what_people_paste() {
    let raw = "  -H 'cOOkie: \"userId\"=9; userId = '5' ; api-platform_slh=\"s\"; x; api-platform_serviceToken=\"a=b\"'\nHost: h";
    assert_eq!(
        UsageFetcher::normalize_mimo_cookie_header(raw).unwrap(),
        "api-platform_serviceToken=a=b; api-platform_slh=s; userId=5"
    );
    let last = "userId=1;api-platform_serviceToken=t;userId=2;userId=";
    assert_eq!(
        UsageFetcher::normalize_mimo_cookie_header(last).unwrap(),
        "api-platform_serviceToken=t; userId=2"
    );
    assert_eq!(
        UsageFetcher::console_cookie("x").unwrap_err(),
        "MiMo Cookie 缺少 api-platform_serviceToken 或 userId"
    );
    assert!(UsageFetcher::console_cookie(last).is_ok());
}

#[test]
fn mimo_cookie_header_is_made_once() {
    let raw = "userId=U9; api-platform_slh=s-_; api-platform_serviceToken=t0K; api-platform_ph=p";
    let once = UsageFetcher::normalize_mimo_cookie_header(raw).unwrap();
    assert_eq!(
        once,
        "api-platform_ph=p; api-platform_serviceToken=t0K; api-platform_slh=s-_; userId=U9"
    );
    assert_eq!(UsageFetcher::normalize_mimo_cookie_header(&once).unwrap(), once);
}

#[test]
fn mimo_period_end_parser_reads_console_timestamp() {
    assert_eq!(
        UsageFetcher::parse_mimo_period_end("2026-05-04 23:59:59"),
        Some(1_778_025_599)
    );
}

#[test]
fn mimo_reset_needs_a_time() {
    assert_eq!(UsageFetcher::parse_mimo_period_end(" 1970-01-01 00:00:01 "), Some(86_401));
    assert_eq!(UsageFetcher::parse_mimo_period_end("2026-05-04"), None);
    let detail = doc(r#"{"data":{"currentPeriodEnd":"2026-05-04 23:59:59"}}"#);
    assert_eq!(UsageFetcher::mimo_reset(Some(&detail)), Some(1_778_025_599));
    assert_eq!(UsageFetcher::mimo_reset(Some(&doc(r#"{"data":{"currentPeriodEnd":7}}"#))), None);
    assert_eq!(UsageFetcher::mimo_reset(None), None);
}

fn mimo(text: &str) -> Result<MimoShare, String> {
    let body = doc(text);
    UsageFetcher::parse_mimo_usage(&body, &readings(&body))
}

#[test]
fn mimo_share_is_looked_for_in_three_places() {
    match mimo(r#"{"data":{"monthUsage":{"percent":0.5,"items":[{"percent":"0.0505","used":1,"limit":2}]}}}"#) {
        Ok(MimoShare::Part(t)) => assert_eq!(t, "0.0505"),
        other => panic!("{:?}", other),
    }
    match mimo(r#"{"code":0,"data":{"monthUsage":{"percent":0.5,"items":[{"percent":"x"}]}}}"#) {
        Ok(MimoShare::Part(t)) => assert_eq!(t, "0.5"),
        other => panic!("{:?}", other),
    }
    match mimo(r#"{"data":{"monthUsage":{"items":[{"used":"3","limit":12}]}}}"#) {
        Ok(MimoShare::Ratio { used, limit }) => {
            assert_eq!(used.as_deref(), Some("3"));
            assert_eq!(limit, "12");
        }
        other => panic!("{:?}", other),
    }
    assert_eq!(MIMO_UNIT, "% MiMo Credits");
}

#[test]
fn mimo_errors_are_told_apart() {
    assert_eq!(mimo(r#"{"code":7}"#).unwrap_err(), "MiMo usage code=7 msg=non-zero code");
    assert_eq!(mimo(r#"{"code":-1,"message":"m"}"#).unwrap_err(), "MiMo usage code=-1 msg=m");
    assert_eq!(mimo(r#"{"data":{}}"#).unwrap_err(), "MiMo usage 响应缺 monthUsage.items");
    assert_eq!(
        mimo(r#"{"data":{"monthUsage":{"items":[]}}}"#).unwrap_err(),
        "MiMo usage 响应缺 monthUsage.items"
    );
    assert_eq!(
        mimo(r#"{"data":{"monthUsage":{"items":[{"used":1,"limit":0}]}}}"#).unwrap_err(),
        "MiMo usage 响应缺 percent/used/limit"
    );
}

#[test]
fn console_answers_are_told_apart() {
    let err = |status: u16, text: &str| UsageFetcher::console_document(&answer(status, text), "u").unwrap_err();
    assert_eq!(err(401, ""), "MiMo 登录态已失效，请重新登录后复制 Cookie");
    assert_eq!(err(403, ""), "MiMo Cookie 无效或权限不足");
    assert_eq!(err(502, "bad"), "HTTP 502 @ u → bad");
    assert_eq!(err(200, "bad"), "MiMo usage JSON 解析失败: error decoding response body");
    assert!(UsageFetcher::console_document(&answer(200, "{}"), "u").is_ok());
}

#[test]
fn labels_go_by_the_length_of_the_window() {
    assert_eq!(UsageFetcher::get_limits_label(-5), "5H 限额");
    assert_eq!(UsageFetcher::get_limits_label(18_600), "5H 限额");
    assert_eq!(UsageFetcher::get_limits_label(18_601), "24H 限额");
    assert_eq!(UsageFetcher::get_limits_label(87_000), "24H 限额");
    assert_eq!(UsageFetcher::get_limits_label(87_001), "周限额");
    assert_eq!(UsageFetcher::get_limits_label(608_400), "周限额");
    assert_eq!(UsageFetcher::get_limits_label(608_401), "170H 限额");
}

#[test]
fn waits_are_put_into_words() {
    assert_eq!(UsageFetcher::format_duration(-100), "即将重置");
    assert_eq!(UsageFetcher::format_duration(59), "即将重置");
    assert_eq!(UsageFetcher::format_duration(60), "1分钟后重置");
    assert_eq!(UsageFetcher::format_duration(3_600), "1小时0分钟后重置");
    assert_eq!(UsageFetcher::format_duration(24 * 3_600 + 3_599), "24小时59分钟后重置");
    assert_eq!(UsageFetcher::format_duration(25 * 3_600), "1天后重置");
    assert_eq!(UsageFetcher::format_duration(i64::MAX), "106751991167300天后重置");
}

#[test]
fn resets_are_awaited_from_now() {
    let now = Timestamp { secs: 1_000, nanos: 1 };
    assert_eq!(UsageFetcher::format_reset_at(0, now), "未知");
    assert_eq!(UsageFetcher::format_reset_at(1_060, now), "即将重置");
    assert_eq!(UsageFetcher::format_reset_at(1_061, now), "1分钟后重置");
    assert_eq!(UsageFetcher::format_reset_at(5, now), "即将重置");
    assert_eq!(UsageFetcher::format_reset_at(i64::MAX, now), "即将重置");
    assert_eq!(UsageFetcher::format_reset(1), "即将重置");
    assert!(UsageFetcher::format_reset(8_000_000_000_000).ends_with("天后重置"));
}

#[test]
fn usage_is_shown() {
    let body = doc(
        r#"{"plan_type":"plus",
            "rate_limit":{"primary_window":{"used_percent":"12.5","reset_at":4600.9,"limit_window_seconds":18000},
                          "secondary_window":{"used_percent":99.4,"reset_after_seconds":7260,"limit_window_seconds":999999}},
            "credits":{"has_credits":false,"unlimited":true,"balance":"3.25"}}"#,
    );
    let table = readings(&body);
    assert!(UsageFetcher::usage_in_bounds(&body, &table));
    let u = UsageFetcher::parse_usage_response_at(&body, &table, Timestamp { secs: 1_000, nanos: 0 });
    assert_eq!(u.plan_type, "plus");
    assert_eq!((u.five_hour_used, u.five_hour_left), (13, 87));
    assert_eq!(u.five_hour_label, "5H 限额");
    assert_eq!(u.five_hour_reset, "1小时0分钟后重置");
    assert_eq!(u.five_hour_reset_at, Some(4_600));
    assert_eq!((u.weekly_used, u.weekly_left), (99, 1));
    assert_eq!(u.weekly_label, "278H 限额");
    assert_eq!(u.weekly_reset, "2小时1分钟后重置");
    assert_eq!(u.weekly_reset_at, None);
    assert_eq!(u.credits_balance.as_deref(), Some("3.25"));
    assert!(u.has_credits && u.is_valid_for_cli);
}

#[test]
fn missing_usage_is_shown_as_unknown() {
    let body = doc(r#"{"rate_limit":{"primary_window":{"reset_at":-1,"reset_after_seconds":70},"secondary_window":{"reset_after_sec":"x"}},"credits":{"balance":"lots"}}"#);
    let u = UsageFetcher::parse_usage_response(&body, &readings(&body));
    assert_eq!(u.plan_type, "unknown");
    assert_eq!((u.five_hour_used, u.five_hour_left), (0, 100));
    assert_eq!((u.five_hour_label.as_str(), u.weekly_label.as_str()), ("5H 限额", "周限额"));
    assert_eq!((u.five_hour_reset.as_str(), u.weekly_reset.as_str()), ("未知", "未知"));
    assert_eq!(u.five_hour_reset_at, Some(-1));
    assert_eq!(u.credits_balance, None);
    assert!(!u.has_credits);
    let empty = doc("{}");
    let u = UsageFetcher::parse_usage_response(&empty, &readings(&empty));
    assert_eq!(u.weekly_reset, "未知");
}

#[test]
fn numbers_out_of_bounds_are_noticed() {
    let low = doc(r#"{"rate_limit":{"primary_window":{"used_percent":-1e300}}}"#);
    assert!(!UsageFetcher::usage_in_bounds(&low, &readings(&low)));
    let long = doc(r#"{"rate_limit":{"secondary_window":{"limit_window_seconds":1e300}}}"#);
    assert!(!UsageFetcher::usage_in_bounds(&long, &readings(&long)));
}

fn query(allow: bool, account: Option<&str>, refresh: Option<&str>) -> UsageQuery {
    UsageQuery::new(allow, account.map(|s| s.to_string()), refresh.map(|s| s.to_string()))
}

#[test]
fn tokens_are_refreshed_only_where_that_helps() {
    match query(true, Some("acc"), Some("rt")).next(UsageEvent::Answered(401)) {
        UsageAction::Refresh { lock_key } => assert_eq!(lock_key, "acc"),
        other => panic!("{:?}", other),
    }
    match query(true, None, Some("0123456789abcdefXYZ")).next(UsageEvent::Answered(403)) {
        UsageAction::Refresh { lock_key } => assert_eq!(lock_key, "rt:0123456789abcdef"),
        other => panic!("{:?}", other),
    }
    let next = |mut q: UsageQuery, status: u16| q.next(UsageEvent::Answered(status));
    assert!(matches!(next(query(false, None, Some("rt")), 401), UsageAction::ReadDenial));
    assert!(matches!(next(query(true, None, None), 401), UsageAction::ReadDenial));
    assert!(matches!(next(query(true, None, Some("rt")), 500), UsageAction::ReadUsage));
    assert_eq!(UsageFetcher::lock_key(None, "短"), "rt:短");
    assert!(query(true, None, Some("0123456789abcdef短")).lock_in_bounds());
    assert!(!query(true, None, Some("0123456789abcde短")).lock_in_bounds());
    assert!(query(true, Some("a"), Some("0123456789abcde短")).lock_in_bounds());
    let mut uncut = query(true, None, Some("0123456789abcde短"));
    assert!(matches!(uncut.next(UsageEvent::Answered(200)), UsageAction::ReadUsage));
}

#[test]
fn tokens_are_refreshed_once_at_most() {
    let mut q = query(true, Some("acc"), Some("rt"));
    assert!(matches!(q.next(UsageEvent::Answered(401)), UsageAction::Refresh { .. }));
    assert!(matches!(q.next(UsageEvent::Refreshed), UsageAction::AskAgain));
    assert!(matches!(q.clone().next(UsageEvent::Answered(200)), UsageAction::ReadUsage));
    assert!(matches!(q.next(UsageEvent::Answered(401)), UsageAction::ReadDenial));
}

fn failed_refresh(message: &str) -> UsageAction {
    let mut q = query(true, Some("acc"), Some("rt"));
    q.next(UsageEvent::Answered(401));
    q.next(UsageEvent::RefreshFailed(message.to_string()))
}

#[test]
fn failures_are_told_apart() {
    match failed_refresh("error: INVALID_GRANT") {
        UsageAction::Fail(e) => {
            assert_eq!(e, "ACCOUNT_LOGGED_OUT:您已登出或登录了其他账号，请重新登录")
        }
        other => panic!("{:?}", other),
    }
    assert!(matches!(failed_refresh("You were Logged Out"), UsageAction::Fail(_)));
    assert!(matches!(failed_refresh("Signed in to another account"), UsageAction::Fail(_)));
    assert!(matches!(failed_refresh("timeout"), UsageAction::ReadDenial));
    assert_eq!(UsageFetcher::denial("Account_DEACTIVATED", true), "ACCOUNT_BANNED:该账号已被封禁");
    assert_eq!(
        UsageFetcher::denial("", true),
        "TOKEN_INVALID:授权已失效，请删除该账号后重新登录"
    );
    assert!(UsageFetcher::denial("", false).starts_with("当前激活账号"));
    assert!(UsageFetcher::says_banned("suspended") && !UsageFetcher::says_banned("SUSPENDED"));
}

#[test]
fn bodies_may_say_that_an_account_is_banned() {
    assert_eq!(
        UsageFetcher::read_usage_body(r#"{"detail":{"code":"Deactivated_Workspace"}}"#).unwrap_err(),
        "ACCOUNT_BANNED:该账号已被封禁(workspace 已停用)"
    );
    assert!(UsageFetcher::read_usage_body(r#"{"detail":{"code":"ok"}}"#).is_ok());
    assert!(UsageFetcher::read_usage_body(r#"{"detail":"banned"}"#).is_ok());
    assert!(UsageFetcher::read_usage_body("x").unwrap_err().starts_with("解析 JSON 失败: expected"));
}

#[test]
fn answers_are_stamped() {
    let cache = RelayUsageCache::stamped("75".to_string(), GLM_UNIT, true, Some(5));
    assert_eq!((cache.remaining.as_str(), cache.unit.as_str()), ("75", "% tokens"));
    assert_eq!(cache.next_reset_at, Some(5));
}
