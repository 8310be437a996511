use codex_switcher::answer::Answer;
use codex_switcher::remote_client::{
    answer_failure, answer_part, cached_url, cached_url_at, choose_base_url, chosen_url,
    delete_account_request, delete_failure, fetch_all_quota_request, fetch_token_request,
    get_current_request, health_failure, health_request, invalidate_cached_url,
    list_accounts_request, list_remote_skills_request, probe_ok, probe_request,
    push_solo_switch_request, refresh_account_quota_request, refresh_answer,
    request_switch_request, send_solo_heartbeat_request, set_cached_url, set_cached_url_at,
    settle, settle_at,
    test_auth_failure, test_auth_request, trim_url, upload_failure, upload_skill_request,
    upsert_account_request, url_encode, winner, Choice, Method, Side, UrlCache, CACHE_TTL,
};

fn answer(status: u16, text: &str) -> Answer {
    Answer {
        status,
        body: text.as_bytes().to_vec(),
        text: text.to_string(),
        unreadable: "error decoding response body".to_string(),
    }
}

#[test]
fn addresses_lose_their_slashes() {
    assert_eq!(trim_url("http://h///"), "http://h");
    assert_eq!(trim_url("http://h"), "http://h");
    assert_eq!(trim_url("//"), "");
}

#[test]
fn names_are_written_so_that_they_can_stand_in_an_address() {
    assert_eq!(url_encode("aZ09-_.~"), "aZ09-_.~");
    assert_eq!(url_encode("a b/中"), "a%20b%2F%E4%B8%AD");
    assert_eq!(url_encode(""), "");
}

#[test]
fn kept_address_is_used_until_its_time_is_over() {
    let mut cache = UrlCache::new();
    assert_eq!(cached_url(&cache), None);
    set_cached_url_at(&mut cache, "http://h", 7);
    assert_eq!(cached_url_at(&cache, 7 + CACHE_TTL - 1).as_deref(), Some("http://h"));
    assert_eq!(cached_url_at(&cache, 7 + CACHE_TTL), None);
    set_cached_url(&mut cache, "http://g");
    assert_eq!(cached_url(&cache).as_deref(), Some("http://g"));
    invalidate_cached_url(&mut cache);
    assert_eq!(cached_url(&cache), None);
}

#[test]
fn address_is_chosen_among_those_configured() {
    match choose_base_url(" ", "", Some("x")) {
        Choice::Fail(e) => assert_eq!(e, "未配置 Server 地址"),
        other => panic!("{:?}", other),
    }
    match choose_base_url(" p ", "f", Some("f")) {
        Choice::Use(u) => assert_eq!(u, "f"),
        other => panic!("{:?}", other),
    }
    match choose_base_url(" p ", "f", Some("old")) {
        Choice::Ask { primary, fallback } => {
            assert_eq!(primary.as_deref(), Some("p"));
            assert_eq!(fallback.as_deref(), Some("f"));
        }
        other => panic!("{:?}", other),
    }
    match choose_base_url("", "f\n", None) {
        Choice::Ask { primary, fallback } => {
            assert_eq!(primary, None);
            assert_eq!(fallback.as_deref(), Some("f"));
        }
        other => panic!("{:?}", other),
    }
}

#[test]
fn first_good_answer_wins() {
    assert_eq!(winner(Side::Fallback, true, true), Some(Side::Fallback));
    assert_eq!(winner(Side::Fallback, false, true), Some(Side::Primary));
    assert_eq!(winner(Side::Primary, false, true), Some(Side::Fallback));
    assert_eq!(winner(Side::Primary, false, false), None);
    let p = Some("p".to_string());
    let f = Some("f".to_string());
    assert_eq!(chosen_url(&p, &f, Some(Side::Fallback)).unwrap(), "f");
    assert_eq!(chosen_url(&p, &None, Some(Side::Primary)).unwrap(), "p");
    assert_eq!(chosen_url(&p, &f, None).unwrap_err(), "Server 不可达（primary=p, fallback=f）");
    assert_eq!(chosen_url(&p, &None, None).unwrap_err(), "Server 不可达（primary=p）");
    assert_eq!(chosen_url(&None, &f, None).unwrap_err(), "Server 不可达（fallback=f）");
}

#[test]
fn plain_requests_carry_the_secret() {
    let cases = vec![
        (test_auth_request("http://h/", "s"), "http://h/accounts", "连接失败: "),
        (list_accounts_request("http://h/", "s"), "http://h/accounts", "请求失败: "),
        (fetch_all_quota_request("http://h", "s"), "http://h/quotas", "GET /quotas 失败: "),
        (get_current_request("http://h", "s"), "http://h/current", "GET /current 失败: "),
        (list_remote_skills_request("http://h", "s"), "http://h/skills", "GET /skills 失败: "),
        (fetch_token_request("http://h", "s", "i"), "http://h/accounts/i/token", "GET token 失败: "),
    ];
    for (r, url, failure) in cases {
        assert_eq!(r.method, Method::Get);
        assert_eq!(r.url, url);
        assert_eq!(r.secret.as_deref(), Some("s"));
        assert_eq!(r.failure, failure);
        assert_eq!(r.timeout_secs, 10);
        assert!(r.content_type.is_none() && r.body.is_none());
    }
    let d = delete_account_request("http://h", "s", "i");
    assert_eq!((d.method, d.url.as_str()), (Method::Delete, "http://h/accounts/i"));
    assert_eq!(d.failure, "DELETE 失败: ");
}

#[test]
fn asking_how_it_is_takes_no_secret() {
    let h = health_request("http://h/");
    assert_eq!((h.url.as_str(), h.secret, h.timeout_secs), ("http://h/health", None, 10));
    let p = probe_request("http://h/");
    assert_eq!((p.url.as_str(), p.secret, p.timeout_secs), ("http://h/health", None, 2));
    assert!(probe_ok(204) && !probe_ok(301) && !probe_ok(500));
}

fn body(r: &codex_switcher::remote_client::Request) -> String {
    String::from_utf8(r.body.clone().unwrap()).unwrap()
}

#[test]
fn requests_with_a_body_say_what_it_is() {
    let r = request_switch_request("http://h", "s", Some("a\"b"), "why");
    assert_eq!(body(&r), r#"{"from":"a\"b","reason":"why"}"#);
    assert_eq!((r.method, r.url.as_str()), (Method::Post, "http://h/switch"));
    assert_eq!(r.content_type.as_deref(), Some("application/json"));
    let r = request_switch_request("http://h", "s", None, "why");
    assert_eq!(body(&r), r#"{"from":null,"reason":"why"}"#);
    let r = send_solo_heartbeat_request("http://h", "s", -5);
    assert_eq!((body(&r).as_str(), r.url.as_str()), (r#"{"ttl_secs":-5}"#, "http://h/solo/heartbeat"));
    assert_eq!(r.failure, "心跳失败: ");
    let r = push_solo_switch_request("http://h", "s", "i", true);
    assert_eq!(body(&r), r#"{"apply_to_disk":true,"current":"i"}"#);
    assert_eq!(r.url, "http://h/solo/current");
    let r = upsert_account_request("http://h", "s", b"{}".to_vec());
    assert_eq!((body(&r).as_str(), r.timeout_secs), ("{}", 45));
    let r = upload_skill_request("http://h", "s", "my skill", b"zip".to_vec());
    assert_eq!(r.url, "http://h/skills/upload?name=my%20skill");
    assert_eq!(r.content_type.as_deref(), Some("application/zip"));
    assert_eq!(r.timeout_secs, 60);
    let r = refresh_account_quota_request("http://h", "s", "i");
    assert_eq!((r.method, r.url.as_str()), (Method::Post, "http://h/accounts/i/refresh"));
    assert_eq!((r.timeout_secs, r.body), (45, None));
    assert_eq!(r.failure, "POST /accounts/i/refresh 失败: ");
}

#[test]
fn wrong_secret_is_told_apart() {
    assert_eq!(answer_failure(200), None);
    assert_eq!(answer_failure(401).as_deref(), Some("共享密钥不正确"));
    assert_eq!(answer_failure(404).as_deref(), Some("Server 返回 404 Not Found"));
    assert_eq!(answer_failure(599).as_deref(), Some("Server 返回 599 <unknown status code>"));
    assert_eq!(test_auth_failure(500).as_deref(), Some("Server /accounts 返回 500 Internal Server Error"));
    assert_eq!(health_failure(401).as_deref(), Some("Server /health 返回 401 Unauthorized"));
    assert_eq!(health_failure(299), None);
    assert_eq!(upload_failure(401, "x").as_deref(), Some("共享密钥不正确"));
    assert_eq!(upload_failure(502, "x").as_deref(), Some("Server 返回 502 Bad Gateway: x"));
    assert_eq!(upload_failure(200, "x"), None);
    assert_eq!(delete_failure(404), None);
    assert_eq!(delete_failure(401).as_deref(), Some("共享密钥不正确"));
    assert_eq!(delete_failure(500).as_deref(), Some("Server 返回 500 Internal Server Error"));
}

#[test]
fn parts_of_answers_have_to_be_there() {
    let ok = answer(200, r#"{"skills":["a"]}"#);
    assert_eq!(answer_part(&ok, "skills").unwrap().as_array().unwrap().len(), 1);
    assert_eq!(answer_part(&ok, "accounts").unwrap_err(), "响应缺少 accounts 字段");
    assert_eq!(answer_part(&answer(401, ""), "skills").unwrap_err(), "共享密钥不正确");
    assert_eq!(answer_part(&answer(200, ""), "skills").unwrap_err(), "error decoding response body");
}

#[test]
fn refreshing_gives_usage_or_the_error_of_the_server() {
    let usage = refresh_answer(&answer(200, r#"{"usage":{"plan_type":"x"}}"#)).unwrap();
    assert_eq!(usage.get("plan_type").unwrap().as_str(), Some("x"));
    assert_eq!(refresh_answer(&answer(200, "{}")).unwrap_err(), "响应缺少 usage 字段");
    assert_eq!(refresh_answer(&answer(500, r#"{"error":"why"}"#)).unwrap_err(), "why");
    assert_eq!(refresh_answer(&answer(500, "{}")).unwrap_err(), "未知错误");
    assert_eq!(refresh_answer(&answer(401, "{}")).unwrap_err(), "共享密钥不正确");
    assert_eq!(
        refresh_answer(&answer(500, "x")).unwrap_err(),
        "解析刷新响应失败: error decoding response body"
    );
}

#[test]
fn found_address_is_used_until_its_time_is_over() {
    let (p, f) = (Some("http://p".to_string()), Some("http://f".to_string()));
    let mut cache = UrlCache::new();
    let failed = settle_at(&mut cache, &p, &f, None, 5);
    assert_eq!(failed.unwrap_err(), "Server 不可达（primary=http://p, fallback=http://f）");
    assert_eq!(cached_url_at(&cache, 5), None);

    assert_eq!(settle_at(&mut cache, &p, &f, Some(Side::Fallback), 5).unwrap(), "http://f");
    let kept = cached_url_at(&cache, 4 + CACHE_TTL);
    assert_eq!(kept.as_deref(), Some("http://f"));
    let choice = choose_base_url("http://p", " http://f ", kept.as_deref());
    assert!(matches!(choice, Choice::Use(url) if url == "http://f"));
    let over = cached_url_at(&cache, 5 + CACHE_TTL);
    let choice = choose_base_url("http://p", " http://f ", over.as_deref());
    assert!(matches!(choice, Choice::Ask { .. }));

    assert!(settle_at(&mut cache, &p, &f, None, 9).is_err());
    assert_eq!(cached_url_at(&cache, 9).as_deref(), Some("http://f"));
    assert_eq!(settle(&mut cache, &p, &None, Some(Side::Primary)).unwrap(), "http://p");
    assert_eq!(cached_url(&cache).as_deref(), Some("http://p"));
}
