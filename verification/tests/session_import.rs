use base64::engine::general_purpose::URL_SAFE_NO_PAD;
use base64::Engine;
use codex_switcher::clock::Timestamp;
use codex_switcher::json::{read_json_text, Json};
use codex_switcher::session_import::{
    build_synthetic_id_token, build_synthetic_id_token_at, collect_session_like, convert_one, convert_one_at,
    first_non_empty_str, hands_on, import_chatgpt_session, import_found, nested_str,
    parse_jwt_payload, parse_to_iso, read_expiry, read_identity,
};

fn doc(text: &str) -> Json {
    read_json_text(text).unwrap()
}

fn text_at(doc: &Json, name: &str) -> String {
    doc.get(name).unwrap().as_str().unwrap().to_string()
}

fn token(payload: &str) -> String {
    format!("head.{}.sig", URL_SAFE_NO_PAD.encode(payload))
}

fn noon() -> Timestamp {
    Timestamp { secs: 1_700_000_000, nanos: 0 }
}

#[test]
fn convert_minimal_chatgpt_session() {
    let raw = doc(
        r#"{
            "user": {"id": "user-test", "email": "mark@example.com"},
            "expires": "2026-08-06T14:29:36.155Z",
            "account": {"id": "00000000-0000-4000-9000-000000000000", "planType": "plus"},
            "accessToken": "access-token",
            "sessionToken": "session-token"
        }"#,
    );
    let (auth, info, name) = convert_one(&raw).unwrap();
    assert_eq!(name, "mark@example.com");
    assert_eq!(info.email.as_deref(), Some("mark@example.com"));
    assert_eq!(info.plan_type.as_deref(), Some("plus"));
    assert_eq!(info.account_id.as_deref(), Some("00000000-0000-4000-9000-000000000000"));
    assert!(info.id_token_synthetic);
    assert!(!info.has_refresh_token);

    let tokens = auth.get("tokens").unwrap();
    assert_eq!(text_at(tokens, "access_token"), "access-token");
    assert_eq!(text_at(tokens, "refresh_token"), "");
    assert_eq!(text_at(tokens, "session_token"), "session-token");
    let it = text_at(tokens, "id_token");
    let parts: Vec<&str> = it.split('.').collect();
    assert_eq!(parts.len(), 3);

    let payload: serde_json::Value =
        serde_json::from_slice(&URL_SAFE_NO_PAD.decode(parts[1]).unwrap()).unwrap();
    assert_eq!(payload.get("email").unwrap(), "mark@example.com");
    assert_eq!(
        payload
            .get("https://api.openai.com/auth")
            .unwrap()
            .get("chatgpt_account_id")
            .unwrap(),
        "00000000-0000-4000-9000-000000000000"
    );
}

#[test]
fn keep_real_id_and_refresh_token_when_present() {
    let raw = doc(
        r#"{
            "user": {"email": "x@y.com"},
            "account": {"id": "aid"},
            "accessToken": "at",
            "refreshToken": "rt",
            "idToken": "real.header.signature"
        }"#,
    );
    let (auth, info, _) = convert_one(&raw).unwrap();
    assert!(info.has_refresh_token);
    assert!(!info.id_token_synthetic);
    assert_eq!(text_at(auth.get("tokens").unwrap(), "refresh_token"), "rt");
    assert_eq!(text_at(auth.get("tokens").unwrap(), "id_token"), "real.header.signature");
}

#[test]
fn reject_missing_access_token() {
    let raw = doc(r#"{"user": {"email": "x@y.com"}}"#);
    let collected = collect_session_like(&raw);
    assert!(collected.is_empty());
    assert_eq!(convert_one(&raw).unwrap_err(), "缺少 accessToken");
}

#[test]
fn collect_session_from_array_of_records() {
    let raw = doc(
        r#"[
            {"accessToken": "a", "user": {"email": "a@a"}},
            {"accessToken": "b", "user": {"email": "b@b"}}
        ]"#,
    );
    let collected = collect_session_like(&raw);
    assert_eq!(collected.len(), 2);
    assert_eq!(collected[0].0, "$[0]");
    assert_eq!(collected[1].0, "$[1]");
}

#[test]
fn sessions_are_found_anywhere_but_under_tokens() {
    let raw = doc(
        r#"{
            "accounts": [{"inner": {"token": {"access_token": "t"}, "name": "n"}}],
            "accessToken": {"accessToken": "a", "id": "x"},
            "other": {"credentials": {"accessToken": "c"}, "providerSpecificData": {"chatgptAccountId": "p"}},
            "blank": {"accessToken": "  ", "id": "x"}
        }"#,
    );
    let found: Vec<String> = collect_session_like(&raw).into_iter().map(|f| f.0).collect();
    assert_eq!(found, vec!["$.accounts[0].inner", "$.other"]);
}

#[test]
fn nothing_is_looked_for_inside_a_session() {
    let raw = doc(r#"{"accessToken":"a","email":"e","more":{"accessToken":"b","email":"f"}}"#);
    let found = collect_session_like(&raw);
    assert_eq!(found.len(), 1);
    assert_eq!(found[0].0, "$");
}

#[test]
fn texts_are_trimmed_and_empty_ones_passed_over() {
    let raw = doc(r#"{"a":"  ","b":" x ","n":3,"p":{"a":"　y\t"}}"#);
    assert_eq!(first_non_empty_str(&raw, "a", "b").as_deref(), Some("x"));
    assert_eq!(first_non_empty_str(&raw, "a", "n"), None);
    assert_eq!(nested_str(&raw, "p", "a", "b").as_deref(), Some("y"));
    assert_eq!(nested_str(&raw, "q", "a", "b"), None);
}

#[test]
fn tokens_under_credentials_take_fewer_names() {
    let raw = doc(
        r#"{"id":"i","credentials":{"accessToken":"a","sessionToken":"s","refresh_token":"r"}}"#,
    );
    let (auth, info, name) = convert_one_at(&raw, noon()).unwrap();
    let tokens = auth.get("tokens").unwrap();
    assert_eq!(text_at(tokens, "access_token"), "a");
    assert!(tokens.get("session_token").is_none());
    assert_eq!(text_at(tokens, "refresh_token"), "r");
    assert!(info.has_refresh_token);
    assert!(auth.get("session_import_no_refresh").is_none());
    assert_eq!(name, "ChatGPT Session");
    assert!(!info.id_token_synthetic);
    assert!(tokens.get("id_token").is_none());
}

#[test]
fn payloads_of_tokens_fill_what_the_record_lacks() {
    let access = token(
        r#"{"exp":1700003600,"email":"at@x","https://api.openai.com/auth":{"chatgpt_account_id":"acc","chatgpt_user_id":"usr","chatgpt_plan_type":"pro"}}"#,
    );
    let raw = doc(&format!(r#"{{"id":"i","accessToken":"{}"}}"#, access));
    let (auth, info, name) = convert_one_at(&raw, noon()).unwrap();
    assert_eq!(name, "at@x");
    assert_eq!(info.account_id.as_deref(), Some("acc"));
    assert_eq!(info.plan_type.as_deref(), Some("pro"));
    assert_eq!(info.expires_at.as_deref(), Some("2023-11-14T23:13:20+00:00"));
    assert_eq!(text_at(&auth, "last_refresh"), "2023-11-14T22:13:20+00:00");
    let payload = parse_jwt_payload(&text_at(auth.get("tokens").unwrap(), "id_token")).unwrap();
    assert_eq!(payload.get("exp").unwrap().as_i64(), Some(1_700_003_600));
    assert_eq!(payload.get("iat").unwrap().as_i64(), Some(1_700_000_000));
    let section = payload.get("https://api.openai.com/auth").unwrap();
    assert_eq!(text_at(section, "chatgpt_user_id"), "usr");
    assert_eq!(text_at(section, "user_id"), "usr");
}

#[test]
fn identity_goes_by_the_order_of_its_places() {
    let id = parse_jwt_payload(&token(
        r#"{"email":"id@x","https://api.openai.com/auth":{"chatgpt_account_id":"id-acc"}}"#,
    ));
    let access = parse_jwt_payload(&token(
        r#"{"email":"at@x","https://api.openai.com/profile":{"email":"profile@x"}}"#,
    ));
    let who = read_identity(&doc("{}"), &access, &id);
    assert_eq!(who.email.as_deref(), Some("profile@x"));
    assert_eq!(who.account_id.as_deref(), Some("id-acc"));
    let who = read_identity(&doc(r#"{"email":"own@x","user_id":"u"}"#), &access, &id);
    assert_eq!(who.email.as_deref(), Some("own@x"));
    assert_eq!(who.user_id.as_deref(), Some("u"));
    let who = read_identity(&doc("{}"), &None, &id);
    assert_eq!(who.email.as_deref(), Some("id@x"));
}

#[test]
fn expiry_goes_by_the_token_and_then_by_the_record() {
    let none = None;
    let record = doc(r#"{"expires":"soon","expiresAt":"2026-01-02T03:04:05+02:00"}"#);
    assert_eq!(read_expiry(&record, &none).as_deref(), Some("2026-01-02T01:04:05+00:00"));
    let last = Some(doc(r#"{"exp":8210266876799}"#));
    assert!(read_expiry(&record, &last).unwrap().contains("262142-12-31T23:59:59"));
    let beyond = Some(doc(r#"{"exp":8210266876800}"#));
    assert_eq!(read_expiry(&record, &beyond).as_deref(), Some("2026-01-02T01:04:05+00:00"));
    let first = Some(doc(r#"{"exp":-8334601228800}"#));
    assert!(read_expiry(&record, &first).unwrap().contains("-262143-01-01T00:00:00"));
    let before = Some(doc(r#"{"exp":-8334601228801}"#));
    assert_eq!(read_expiry(&record, &before).as_deref(), Some("2026-01-02T01:04:05+00:00"));
    assert_eq!(read_expiry(&doc("{}"), &none), None);
}

#[test]
fn times_are_written_in_one_way() {
    assert_eq!(
        parse_to_iso("2026-08-06T14:29:36.155Z").as_deref(),
        Some("2026-08-06T14:29:36.155+00:00")
    );
    assert_eq!(
        parse_to_iso("2026-08-06T14:29:36+02:00").as_deref(),
        Some("2026-08-06T12:29:36+00:00")
    );
    assert_eq!(
        parse_to_iso("+12026-08-06T14:29:36.5Z").as_deref(),
        Some("+12026-08-06T14:29:36.500+00:00")
    );
    assert_eq!(parse_to_iso("tomorrow"), None);
}

#[test]
fn made_up_token_reads_back() {
    let made = build_synthetic_id_token_at(Some("e\"@x.y"), "acc", None, None, None, 5);
    let parts: Vec<&str> = made.split('.').collect();
    assert_eq!(parts.len(), 3);
    assert_eq!(parts[2], "synthetic");
    assert_eq!(
        URL_SAFE_NO_PAD.decode(parts[0]).unwrap(),
        br#"{"alg":"none","cpa_synthetic":true,"typ":"JWT"}"#
    );
    assert_eq!(
        String::from_utf8(URL_SAFE_NO_PAD.decode(parts[1]).unwrap()).unwrap(),
        r#"{"email":"e\"@x.y","exp":7776005,"https://api.openai.com/auth":{"chatgpt_account_id":"acc"},"iat":5}"#
    );
    let made =
        build_synthetic_id_token_at(None, "acc", Some("plus"), Some("u"), Some("1970-01-01T00:01:00Z"), 5);
    let payload = parse_jwt_payload(&made).unwrap();
    assert_eq!(payload.get("exp").unwrap().as_i64(), Some(60));
    assert!(payload.get("email").is_none());
    assert_eq!(text_at(payload.get("https://api.openai.com/auth").unwrap(), "chatgpt_plan_type"), "plus");
}

#[test]
fn made_up_token_lasts_ninety_days_from_now() {
    let payload = parse_jwt_payload(&build_synthetic_id_token(None, "acc", None, None, None)).unwrap();
    let issued = payload.get("iat").unwrap().as_i64().unwrap();
    assert!(issued > 1_700_000_000);
    assert_eq!(payload.get("exp").unwrap().as_i64(), Some(issued + 90 * 24 * 60 * 60));
    assert_eq!(text_at(payload.get("https://api.openai.com/auth").unwrap(), "chatgpt_account_id"), "acc");
}

#[test]
fn payload_needs_a_second_part_that_decodes() {
    assert!(parse_jwt_payload("only").is_none());
    assert!(parse_jwt_payload("a.!!!.c").is_none());
    assert!(parse_jwt_payload(&format!("a.{}", URL_SAFE_NO_PAD.encode("nope"))).is_none());
    assert!(parse_jwt_payload(&format!("a.{}", URL_SAFE_NO_PAD.encode("{}"))).is_some());
}

#[test]
fn import_makes_accounts_and_refuses_taken_names() {
    let text = r#" [{"accessToken":"a","email":"a@a"},{"accessToken":"b","email":"b@b"},{"x":1}] "#;
    let done = import_chatgpt_session(text, &vec!["b@b".to_string()]).unwrap();
    assert_eq!(done.ok.len(), 1);
    assert_eq!(done.ok[0].account.name, "a@a");
    assert_eq!(done.ok[0].account.note, "imported from ChatGPT session");
    assert_eq!(done.ok[0].account.auth_json.get("auth_mode").unwrap().as_str(), Some("chatgpt"));
    assert_eq!(done.errors.len(), 1);
    assert_eq!(done.errors[0].source_path, "$[1]");
    assert_eq!(done.errors[0].reason, "已存在同名账号 b@b（跳过，不覆盖）");
}

#[test]
fn import_takes_the_same_name_twice_in_one_go() {
    let text = r#"[{"accessToken":"a","email":"a@a"},{"accessToken":"b","email":"a@a"}]"#;
    let done = import_chatgpt_session(text, &Vec::new()).unwrap();
    assert_eq!(done.ok.len(), 2);
}

#[test]
fn import_tells_what_is_wrong_with_a_text() {
    let none = Vec::new();
    assert_eq!(import_chatgpt_session(" \n", &none).unwrap_err(), "session JSON 不能为空");
    assert!(import_chatgpt_session("{", &none).unwrap_err().starts_with("JSON 解析失败: EOF"));
    assert_eq!(
        import_chatgpt_session("{}", &none).unwrap_err(),
        "未找到包含 accessToken 的 session 对象"
    );
}

#[test]
fn a_record_without_a_token_is_an_error_in_its_place() {
    let found = vec![("$.x".to_string(), doc("{}"))];
    let done = import_found(&found, &Vec::new(), noon());
    assert!(done.ok.is_empty());
    assert_eq!(done.errors[0].source_path, "$.x");
    assert_eq!(done.errors[0].reason, "缺少 accessToken");
}

#[test]
fn accounts_are_handed_on_only_with_all_that_it_takes() {
    assert!(hands_on(true, "s", 1));
    assert!(!hands_on(false, "s", 1));
    assert!(!hands_on(true, "", 1));
    assert!(!hands_on(true, "s", 0));
}
