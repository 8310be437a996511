//! How much of an account's quota is used: what the services answer, and what
//! is shown of it.
use crate::answer::{denied, is_denial, is_success, succeeded, Answer};
use crate::clock::{parse_naive, utc_now, Timestamp, FIRST_SECOND, LAST_SECOND};
use crate::figures::{number_figure, parse_number, Reading, Readings};
use crate::json::{read_json_text, Json, JsonTree};
use crate::text::{
    find_text, has_text, joined, joined3, or_text, same_text, split, split_once, string_of,
    take_before, take_head, to_ascii_lowercase, to_lowercase, trim, trim_end, write_decimal, Edge,
};
use vstd::prelude::*;
use vstd::utf8::{decode_utf8, encode_utf8};

verus! {

broadcast use {crate::json::lemma_array, crate::json::lemma_object};

/// What is shown of an account's usage. The balance is the text of a number.
#[derive(Clone, Debug)]
pub struct UsageDisplay {
    pub plan_type: String,
    pub five_hour_used: i32,
    pub five_hour_left: i32,
    pub five_hour_label: String,
    pub five_hour_reset: String,
    pub five_hour_reset_at: Option<i64>,
    pub weekly_used: i32,
    pub weekly_left: i32,
    pub weekly_label: String,
    pub weekly_reset: String,
    pub weekly_reset_at: Option<i64>,
    pub credits_balance: Option<String>,
    pub has_credits: bool,
    pub is_valid_for_cli: bool,
}

/// What is shown of one window of the quota.
pub ghost struct Window {
    pub used: int,
    pub label: Seq<char>,
    pub reset: Seq<char>,
    pub reset_at: Option<i64>,
}

/// What a `UsageDisplay` says.
pub ghost struct Usage {
    pub plan_type: Seq<char>,
    pub five_hour: Window,
    pub five_hour_left: int,
    pub weekly: Window,
    pub weekly_left: int,
    pub credits_balance: Option<Seq<char>>,
    pub has_credits: bool,
    pub is_valid_for_cli: bool,
}

impl View for UsageDisplay {
    type V = Usage;

    open spec fn view(&self) -> Usage {
        Usage {
            plan_type: self.plan_type@,
            five_hour: Window {
                used: self.five_hour_used as int,
                label: self.five_hour_label@,
                reset: self.five_hour_reset@,
                reset_at: self.five_hour_reset_at,
            },
            five_hour_left: self.five_hour_left as int,
            weekly: Window {
                used: self.weekly_used as int,
                label: self.weekly_label@,
                reset: self.weekly_reset@,
                reset_at: self.weekly_reset_at,
            },
            weekly_left: self.weekly_left as int,
            credits_balance: crate::text::opt_text(self.credits_balance),
            has_credits: self.has_credits,
            is_valid_for_cli: self.is_valid_for_cli,
        }
    }
}

/// Reads and shows usage.
pub struct UsageFetcher;

// ------------------------------------------------------------- labels and waits

/// What a window of so many seconds is called: by its usual lengths, each with
/// some slack, or else by its hours, rounded up.
pub open spec fn window_label(seconds: int) -> Seq<char> {
    if seconds <= 5 * 3_600 + 600 {
        "5H 限额"@
    } else if seconds <= 86_400 + 600 {
        "24H 限额"@
    } else if seconds <= 7 * 86_400 + 3_600 {
        "周限额"@
    } else {
        crate::text::decimal((seconds + 3_599) / 3_600) + "H 限额"@
    }
}

/// How long it is until a reset, in words.
pub open spec fn wait_text(seconds: int) -> Seq<char> {
    let hours = seconds / 3_600;
    let minutes = (seconds % 3_600) / 60;
    if seconds < 60 {
        "即将重置"@
    } else if hours > 24 {
        crate::text::decimal(hours / 24) + "天后重置"@
    } else if hours > 0 {
        crate::text::decimal(hours) + "小时"@ + crate::text::decimal(minutes) + "分钟后重置"@
    } else {
        crate::text::decimal(minutes) + "分钟后重置"@
    }
}

/// The whole seconds from one point in time to another, towards zero.
pub open spec fn seconds_until(reset_at: int, now: Timestamp) -> int {
    let nanos = (reset_at - now.secs) * 1_000_000_000 - now.nanos;
    if nanos >= 0 {
        nanos / 1_000_000_000
    } else {
        -((-nanos) / 1_000_000_000)
    }
}

/// How long it is until the second `reset_at`, in words. Where no such point in
/// time can be held, none is awaited.
pub open spec fn reset_wait(reset_at: int, now: Timestamp) -> Seq<char> {
    if reset_at == 0 {
        "未知"@
    } else if crate::clock::holds(reset_at, 0) {
        wait_text(seconds_until(reset_at, now))
    } else {
        wait_text(0)
    }
}

impl UsageFetcher {
    /// What a window of so many seconds is called.
    pub fn get_limits_label(seconds: i64) -> (r: String)
        requires
            seconds + 3_599 <= i64::MAX,
        ensures
            r@ == window_label(seconds as int),
    {
        if seconds <= 5 * 3_600 + 600 {
            "5H 限额".to_owned()
        } else if seconds <= 86_400 + 600 {
            "24H 限额".to_owned()
        } else if seconds <= 7 * 86_400 + 3_600 {
            "周限额".to_owned()
        } else {
            let hours: i64 = (seconds + 3_599) / 3_600;
            joined(write_decimal(hours as i128).as_str(), "H 限额")
        }
    }

    /// How long it is until a reset, in words.
    pub fn format_duration(seconds: i64) -> (r: String)
        ensures
            r@ == wait_text(seconds as int),
    {
        if seconds < 60 {
            return "即将重置".to_owned();
        }
        let hours: i64 = seconds / 3_600;
        let minutes: i64 = (seconds % 3_600) / 60;
        if hours > 24 {
            joined(write_decimal((hours / 24) as i128).as_str(), "天后重置")
        } else if hours > 0 {
            let front = joined3(
                write_decimal(hours as i128).as_str(),
                "小时",
                write_decimal(minutes as i128).as_str(),
            );
            joined(front.as_str(), "分钟后重置")
        } else {
            joined(write_decimal(minutes as i128).as_str(), "分钟后重置")
        }
    }

    /// How long it is until the second `reset_at`, in words, given the present
    /// time.
    pub fn format_reset_at(reset_at: i64, now: Timestamp) -> (r: String)
        requires
            now.valid(),
        ensures
            r@ == reset_wait(reset_at as int, now),
    {
        if reset_at == 0 {
            return "未知".to_owned();
        }
        if reset_at < FIRST_SECOND || reset_at > LAST_SECOND {
            return UsageFetcher::format_duration(0);
        }
        let between: i64 = reset_at - now.secs;
        let nanos: i128 = between as i128 * 1_000_000_000 - now.nanos as i128;
        let seconds: i64 = if nanos >= 0 {
            (nanos / 1_000_000_000) as i64
        } else {
            0 - ((0 - nanos) / 1_000_000_000) as i64
        };
        UsageFetcher::format_duration(seconds)
    }

    /// How long it is until the second `reset_at`, in words, as of now.
    pub fn format_reset(reset_at: i64) -> (r: String)
        ensures
            exists|now: Timestamp| now.valid() && r@ == #[trigger] reset_wait(reset_at as int, now),
    {
        let now = utc_now();
        UsageFetcher::format_reset_at(reset_at, now)
    }
}

// -------------------------------------------------------------- what is answered

/// Under either of two names.
pub open spec fn get_either(v: JsonTree, name: Seq<char>, alias: Seq<char>) -> Option<JsonTree> {
    match v.get(name) {
        Some(x) => Some(x),
        None => v.get(alias),
    }
}

/// How much of a window is used, in percent.
pub open spec fn window_used(window: JsonTree, readings: Map<Seq<char>, Reading>) -> int {
    match crate::figures::reading(window.get("used_percent"@), readings) {
        Some(x) => x.rounded as int,
        None => 0,
    }
}

/// The length of a window in seconds.
pub open spec fn window_seconds(window: JsonTree, readings: Map<Seq<char>, Reading>) -> int {
    match crate::figures::reading(window.get("limit_window_seconds"@), readings) {
        Some(x) => x.whole as int,
        None => 0,
    }
}

/// What is shown of a window of the quota.
pub open spec fn shown_window(
    window: Option<JsonTree>,
    default_label: Seq<char>,
    readings: Map<Seq<char>, Reading>,
    now: Timestamp,
) -> Window {
    match window {
        None => Window { used: 0, label: default_label, reset: "未知"@, reset_at: None },
        Some(w) => {
            let seconds = window_seconds(w, readings);
            let reset_at = match crate::figures::reading(w.get("reset_at"@), readings) {
                Some(x) => Some(x.whole),
                None => None,
            };
            let after = match crate::figures::reading(
                get_either(w, "reset_after_seconds"@, "reset_after_sec"@),
                readings,
            ) {
                Some(x) => x.whole as int,
                None => 0,
            };
            Window {
                used: window_used(w, readings),
                label: if seconds > 0 {
                    window_label(seconds)
                } else {
                    default_label
                },
                reset: match reset_at {
                    Some(t) => if t > 0 {
                        reset_wait(t as int, now)
                    } else {
                        "未知"@
                    },
                    None => if after > 0 {
                        wait_text(after)
                    } else {
                        "未知"@
                    },
                },
                reset_at,
            }
        },
    }
}

/// Whether what a window says stays within the bounds of its numbers.
pub open spec fn window_fits(window: Option<JsonTree>, readings: Map<Seq<char>, Reading>) -> bool {
    match window {
        None => true,
        Some(w) => window_seconds(w, readings) + 3_599 <= i64::MAX && 100 - window_used(
            w,
            readings,
        ) <= i32::MAX,
    }
}

pub open spec fn primary_window(doc: JsonTree) -> Option<JsonTree> {
    doc.get_in("rate_limit"@, "primary_window"@)
}

pub open spec fn secondary_window(doc: JsonTree) -> Option<JsonTree> {
    doc.get_in("rate_limit"@, "secondary_window"@)
}

/// Whether what a document says stays within the bounds of its numbers.
pub open spec fn usage_fits(doc: JsonTree, readings: Map<Seq<char>, Reading>) -> bool {
    window_fits(primary_window(doc), readings) && window_fits(secondary_window(doc), readings)
}

/// Whether a flag under `credits` is set.
pub open spec fn credit_flag(doc: JsonTree, name: Seq<char>) -> bool {
    match doc.get("credits"@) {
        Some(c) => c.flag_at(name) == Some(true),
        None => false,
    }
}

/// What is shown of a document.
pub open spec fn shown_usage(
    doc: JsonTree,
    readings: Map<Seq<char>, Reading>,
    now: Timestamp,
) -> Usage {
    let five_hour = shown_window(primary_window(doc), "5H 限额"@, readings, now);
    let weekly = shown_window(secondary_window(doc), "周限额"@, readings, now);
    Usage {
        plan_type: match doc.text_at("plan_type"@) {
            Some(p) => p,
            None => "unknown"@,
        },
        five_hour,
        five_hour_left: 100 - five_hour.used,
        weekly,
        weekly_left: 100 - weekly.used,
        credits_balance: crate::figures::read_figure(doc.get_in("credits"@, "balance"@), readings),
        has_credits: credit_flag(doc, "has_credits"@) || credit_flag(doc, "unlimited"@),
        is_valid_for_cli: true,
    }
}

/// What is used of a window and what is left of it make up the whole.
pub proof fn used_and_left_make_a_hundred(
    doc: JsonTree,
    readings: Map<Seq<char>, Reading>,
    now: Timestamp,
)
    ensures
        ({
            let u = shown_usage(doc, readings, now);
            u.five_hour.used + u.five_hour_left == 100 && u.weekly.used + u.weekly_left == 100
        }),
{
}

fn credit(doc: &Json, name: &str) -> (r: bool)
    ensures
        r == credit_flag(doc@, name@),
{
    match doc.get("credits") {
        Some(c) => match c.flag_under(name) {
            Some(b) => b,
            None => false,
        },
        None => false,
    }
}

fn fits(window: Option<&Json>, readings: &Readings) -> (r: bool)
    requires
        readings.wf(),
    ensures
        r == window_fits(crate::json::opt_tree(window), readings@),
{
    match window {
        Some(w) => {
            let long = match parse_number(w.get("limit_window_seconds"), readings) {
                Some(x) => x.whole > i64::MAX - 3_599,
                None => false,
            };
            let low = match parse_number(w.get("used_percent"), readings) {
                Some(x) => (x.rounded as i64) < 100 - i32::MAX as i64,
                None => false,
            };
            !long && !low
        },
        None => true,
    }
}

impl UsageFetcher {
    /// What is shown of a window: how much is used, the reset in words, the
    /// label, and the second of the reset.
    fn parse_window(
        window: Option<&Json>,
        default_label: &str,
        readings: &Readings,
        now: Timestamp,
    ) -> (r: (i32, String, String, Option<i64>))
        requires
            readings.wf(),
            now.valid(),
            window_fits(crate::json::opt_tree(window), readings@),
        ensures
            (Window { used: r.0 as int, reset: r.1@, label: r.2@, reset_at: r.3 }) == shown_window(
                crate::json::opt_tree(window),
                default_label@,
                readings@,
                now,
            ),
    {
        let w = match window {
            Some(w) => w,
            None => {
                return (0, "未知".to_owned(), default_label.to_owned(), None);
            },
        };
        let used: i32 = match parse_number(w.get("used_percent"), readings) {
            Some(x) => x.rounded,
            None => 0,
        };
        let reset_at: Option<i64> = match parse_number(w.get("reset_at"), readings) {
            Some(x) => Some(x.whole),
            None => None,
        };
        let seconds: i64 = match parse_number(w.get("limit_window_seconds"), readings) {
            Some(x) => x.whole,
            None => 0,
        };
        let label = if seconds > 0 {
            UsageFetcher::get_limits_label(seconds)
        } else {
            default_label.to_owned()
        };
        let reset = match reset_at {
            Some(t) => if t > 0 {
                UsageFetcher::format_reset_at(t, now)
            } else {
                "未知".to_owned()
            },
            None => {
                let found = match w.get("reset_after_seconds") {
                    Some(x) => Some(x),
                    None => w.get("reset_after_sec"),
                };
                let after: i64 = match parse_number(found, readings) {
                    Some(x) => x.whole,
                    None => 0,
                };
                if after > 0 {
                    UsageFetcher::format_duration(after)
                } else {
                    "未知".to_owned()
                }
            },
        };
        (used, reset, label, reset_at)
    }

    /// Whether what a document says stays within the bounds of its numbers.
    pub fn usage_in_bounds(doc: &Json, readings: &Readings) -> (r: bool)
        requires
            readings.wf(),
        ensures
            r == usage_fits(doc@, readings@),
    {
        fits(doc.get_inner("rate_limit", "primary_window"), readings) && fits(
            doc.get_inner("rate_limit", "secondary_window"),
            readings,
        )
    }

    /// What is shown of a document, given what its numbers read as and the
    /// present time.
    pub fn parse_usage_response_at(doc: &Json, readings: &Readings, now: Timestamp) -> (r:
        UsageDisplay)
        requires
            readings.wf(),
            now.valid(),
            usage_fits(doc@, readings@),
        ensures
            r@ == shown_usage(doc@, readings@, now),
    {
        let plan_type = match doc.text_under("plan_type") {
            Some(p) => p,
            None => "unknown".to_owned(),
        };
        let primary = doc.get_inner("rate_limit", "primary_window");
        let (p_used, p_reset, p_label, p_reset_at) = UsageFetcher::parse_window(
            primary,
            "5H 限额",
            readings,
            now,
        );
        let secondary = doc.get_inner("rate_limit", "secondary_window");
        let (s_used, s_reset, s_label, s_reset_at) = UsageFetcher::parse_window(
            secondary,
            "周限额",
            readings,
            now,
        );
        let has_credits = credit(doc, "has_credits") || credit(doc, "unlimited");
        UsageDisplay {
            plan_type,
            five_hour_used: p_used,
            five_hour_left: 100 - p_used,
            five_hour_label: p_label,
            five_hour_reset: p_reset,
            five_hour_reset_at: p_reset_at,
            weekly_used: s_used,
            weekly_left: 100 - s_used,
            weekly_label: s_label,
            weekly_reset: s_reset,
            weekly_reset_at: s_reset_at,
            credits_balance: number_figure(doc.get_inner("credits", "balance"), readings),
            has_credits,
            is_valid_for_cli: true,
        }
    }

    /// What is shown of a document, given what its numbers read as, as of now.
    pub fn parse_usage_response(doc: &Json, readings: &Readings) -> (r: UsageDisplay)
        requires
            readings.wf(),
            usage_fits(doc@, readings@),
        ensures
            exists|now: Timestamp|
                now.valid() && r@ == #[trigger] shown_usage(doc@, readings@, now),
    {
        let now = utc_now();
        UsageFetcher::parse_usage_response_at(doc, readings, now)
    }
}

// ------------------------------------------------------------- asking for usage

/// How far the asking for usage has come.
#[derive(Clone, Copy, Debug, PartialEq, Eq, Structural)]
pub enum UsageStage {
    /// The usage was asked for.
    Asked,
    /// The token is being refreshed.
    Refreshing,
    /// The usage was asked for with a new token.
    AskedAgain,
}

/// What happens while usage is asked for.
#[derive(Clone, Debug)]
pub enum UsageEvent {
    /// There is an answer with this status.
    Answered(u16),
    /// There is a new token.
    Refreshed,
    /// There is none, for this reason.
    RefreshFailed(String),
}

/// What to do next.
#[derive(Clone, Debug)]
pub enum UsageAction {
    /// Refresh the token under this lock.
    Refresh { lock_key: String },
    /// Ask with the new token.
    AskAgain,
    /// Read the body to find out why the request was not allowed.
    ReadDenial,
    /// Read the usage in the body.
    ReadUsage,
    Fail(String),
}

/// What a `UsageAction` says.
pub ghost enum Step {
    Refresh { lock_key: Seq<char> },
    AskAgain,
    ReadDenial,
    ReadUsage,
    Fail(Seq<char>),
}

impl View for UsageAction {
    type V = Step;

    open spec fn view(&self) -> Step {
        match *self {
            UsageAction::Refresh { lock_key } => Step::Refresh { lock_key: lock_key@ },
            UsageAction::AskAgain => Step::AskAgain,
            UsageAction::ReadDenial => Step::ReadDenial,
            UsageAction::ReadUsage => Step::ReadUsage,
            UsageAction::Fail(e) => Step::Fail(e@),
        }
    }
}

/// The asking for the usage of an account.
#[derive(Clone, Debug)]
pub struct UsageQuery {
    pub stage: UsageStage,
    pub allow_local_refresh: bool,
    pub account_id: Option<String>,
    pub refresh_token: Option<String>,
}

/// How many bytes of a refresh token go into a lock.
pub const LOCK_BYTES: usize = 16;

/// The front of a text that fits in so many bytes.
pub open spec fn front_bytes(s: Seq<char>, n: int) -> Seq<char> {
    decode_utf8(crate::text::head(encode_utf8(s), n))
}

/// Whether a text can be cut off behind so many bytes.
pub open spec fn can_cut(s: Seq<char>, n: int) -> bool {
    encode_utf8(s).len() <= n || vstd::utf8::is_char_boundary(encode_utf8(s), n)
}

/// The lock under which a token is refreshed: that of its account, or else one
/// made of the front of the refresh token.
pub open spec fn lock_of(account_id: Option<Seq<char>>, refresh_token: Seq<char>) -> Seq<char> {
    match account_id {
        Some(id) => id,
        None => "rt:"@ + front_bytes(refresh_token, LOCK_BYTES as int),
    }
}

impl UsageFetcher {
    /// The lock under which a token is refreshed.
    pub fn lock_key(account_id: Option<&str>, refresh_token: &str) -> (r: String)
        requires
            account_id is Some || can_cut(refresh_token@, LOCK_BYTES as int),
        ensures
            r@ == lock_of(crate::text::opt_str(account_id), refresh_token@),
    {
        broadcast use vstd::utf8::encode_utf8_decode_utf8;

        match account_id {
            Some(id) => id.to_owned(),
            None => {
                if refresh_token.as_bytes().len() <= LOCK_BYTES {
                    joined("rt:", refresh_token)
                } else {
                    let (front, _) = refresh_token.split_at(LOCK_BYTES);
                    assert(encode_utf8(front@) =~= crate::text::head(
                        encode_utf8(refresh_token@),
                        LOCK_BYTES as int,
                    ));
                    joined("rt:", front)
                }
            },
        }
    }

    /// Whether a failed refresh, its message in lower case, says that the
    /// account was logged out.
    pub fn says_logged_out(lower: &str) -> (r: bool)
        ensures
            r == logged_out(lower@),
    {
        has_text(lower, "logged out") || has_text(lower, "signed in to another account")
            || has_text(lower, "invalid_grant")
    }

    /// Whether a body, in lower case, says that the account was banned.
    pub fn says_banned(lower: &str) -> (r: bool)
        ensures
            r == banned(lower@),
    {
        has_text(lower, "deactivated") || has_text(lower, "banned") || has_text(lower, "suspended")
    }

    /// The error for a request that was not allowed, given its body.
    pub fn denial(body: &str, allow_local_refresh: bool) -> (r: String)
        ensures
            r@ == if banned(crate::text::lowercase(body@)) {
                "ACCOUNT_BANNED:该账号已被封禁"@
            } else if !allow_local_refresh {
                "当前激活账号访问配额接口返回 401/403；已禁用本地 refresh_token 刷新，请稍后重试或在 Codex 中触发一次请求"@
            } else {
                "TOKEN_INVALID:授权已失效，请删除该账号后重新登录"@
            },
    {
        if UsageFetcher::says_banned(to_lowercase(body).as_str()) {
            "ACCOUNT_BANNED:该账号已被封禁".to_owned()
        } else if !allow_local_refresh {
            "当前激活账号访问配额接口返回 401/403；已禁用本地 refresh_token 刷新，请稍后重试或在 Codex 中触发一次请求".to_owned()
        } else {
            "TOKEN_INVALID:授权已失效，请删除该账号后重新登录".to_owned()
        }
    }

    /// The document in a body, or the error for one that holds none, or that
    /// says, whatever its status, that the account was banned.
    pub fn read_usage_body(body: &str) -> (r: Result<Json, String>)
        ensures
            match r {
                Ok(doc) => crate::json::json_of_text(body@) == Ok::<JsonTree, Seq<char>>(doc@)
                    && !soft_ban(doc@),
                Err(e) => match crate::json::json_of_text(body@) {
                    Ok(doc) => soft_ban(doc)
                        && e@ == "ACCOUNT_BANNED:该账号已被封禁(workspace 已停用)"@,
                    Err(m) => e@ == "解析 JSON 失败: "@ + m,
                },
            },
    {
        let doc = match read_json_text(body) {
            Ok(d) => d,
            Err(m) => {
                return Err(joined("解析 JSON 失败: ", m.as_str()));
            },
        };
        let found = match doc.get_inner("detail", "code") {
            Some(c) => match c.as_str() {
                Some(code) => UsageFetcher::says_banned(to_lowercase(code).as_str()),
                None => false,
            },
            None => false,
        };
        if found {
            Err("ACCOUNT_BANNED:该账号已被封禁(workspace 已停用)".to_owned())
        } else {
            Ok(doc)
        }
    }
}

/// Whether the refresh token, which may become a lock, can be cut to its length.
pub open spec fn lock_fits(q: UsageQuery) -> bool {
    q.refresh_token is Some && q.account_id is None ==> can_cut(
        q.refresh_token->Some_0@,
        LOCK_BYTES as int,
    )
}

/// Whether an event can happen at a stage.
pub open spec fn can_happen(stage: UsageStage, event: UsageEvent) -> bool {
    match event {
        UsageEvent::Answered(_) => stage != UsageStage::Refreshing,
        _ => stage == UsageStage::Refreshing,
    }
}

/// What to do once an answer is there. The token is refreshed only where it was
/// not yet, where that is allowed, where the request was not, and where there
/// is something to refresh it with.
pub open spec fn step_after_answer(q: UsageQuery, status: u16) -> Step {
    if !denied(status) {
        Step::ReadUsage
    } else if q.stage == UsageStage::Asked && q.allow_local_refresh && q.refresh_token is Some {
        Step::Refresh {
            lock_key: lock_of(
                crate::text::opt_text(q.account_id),
                q.refresh_token->Some_0@,
            ),
        }
    } else {
        Step::ReadDenial
    }
}

/// What to do next. A refresh that failed ends the asking where the account was
/// logged out; else the first answer stands.
pub open spec fn next_step(q: UsageQuery, event: UsageEvent) -> Step {
    match event {
        UsageEvent::Answered(status) => step_after_answer(q, status),
        UsageEvent::Refreshed => Step::AskAgain,
        UsageEvent::RefreshFailed(message) => if logged_out(crate::text::lowercase(message@)) {
            Step::Fail("ACCOUNT_LOGGED_OUT:您已登出或登录了其他账号，请重新登录"@)
        } else {
            Step::ReadDenial
        },
    }
}

/// How far the asking has come with a step.
pub open spec fn stage_after(stage: UsageStage, step: Step) -> UsageStage {
    match step {
        Step::Refresh { .. } => UsageStage::Refreshing,
        Step::AskAgain => UsageStage::AskedAgain,
        _ => stage,
    }
}

impl UsageQuery {
    /// The usage was asked for.
    pub fn new(
        allow_local_refresh: bool,
        account_id: Option<String>,
        refresh_token: Option<String>,
    ) -> (r: UsageQuery)
        ensures
            r.stage == UsageStage::Asked,
            r.allow_local_refresh == allow_local_refresh,
            r.account_id == account_id,
            r.refresh_token == refresh_token,
    {
        UsageQuery { stage: UsageStage::Asked, allow_local_refresh, account_id, refresh_token }
    }

    /// Whether the refresh token can become a lock.
    pub fn lock_in_bounds(&self) -> (r: bool)
        ensures
            r == lock_fits(*self),
    {
        match (&self.refresh_token, &self.account_id) {
            (Some(rt), None) => rt.as_str().as_bytes().len() <= LOCK_BYTES
                || rt.as_str().is_char_boundary(LOCK_BYTES),
            _ => true,
        }
    }

    /// Takes note of an event, and tells what to do next.
    pub fn next(&mut self, event: UsageEvent) -> (r: UsageAction)
        requires
            can_happen(old(self).stage, event),
            next_step(*old(self), event) is Refresh ==> lock_fits(*old(self)),
        ensures
            r@ == next_step(*old(self), event),
            *final(self) == (UsageQuery { stage: stage_after(old(self).stage, r@), ..*old(self) }),
    {
        match event {
            UsageEvent::Answered(status) => {
                if !is_denial(status) {
                    return UsageAction::ReadUsage;
                }
                if self.stage != UsageStage::Asked || !self.allow_local_refresh {
                    return UsageAction::ReadDenial;
                }
                let lock_key = match &self.refresh_token {
                    Some(rt) => {
                        let account_id = match &self.account_id {
                            Some(id) => Some(id.as_str()),
                            None => None,
                        };
                        UsageFetcher::lock_key(account_id, rt.as_str())
                    },
                    None => {
                        return UsageAction::ReadDenial;
                    },
                };
                self.stage = UsageStage::Refreshing;
                UsageAction::Refresh { lock_key }
            },
            UsageEvent::Refreshed => {
                self.stage = UsageStage::AskedAgain;
                UsageAction::AskAgain
            },
            UsageEvent::RefreshFailed(message) => {
                if UsageFetcher::says_logged_out(to_lowercase(message.as_str()).as_str()) {
                    UsageAction::Fail(
                        "ACCOUNT_LOGGED_OUT:您已登出或登录了其他账号，请重新登录".to_owned(),
                    )
                } else {
                    UsageAction::ReadDenial
                }
            },
        }
    }
}

/// A token is refreshed once at most, and never where that is not allowed.
pub proof fn token_is_refreshed_once_at_most(q: UsageQuery, event: UsageEvent)
    requires
        can_happen(q.stage, event),
    ensures
        ({
            let step = next_step(q, event);
            &&& step is Refresh ==> q.stage == UsageStage::Asked && q.allow_local_refresh
                && stage_after(q.stage, step) != UsageStage::Asked
            &&& q.stage != UsageStage::Asked ==> stage_after(q.stage, step) != UsageStage::Asked
        }),
{
}

/// Whether a message in lower case says that the account was logged out.
pub open spec fn logged_out(lower: Seq<char>) -> bool {
    crate::text::contains_text(lower, "logged out"@) || crate::text::contains_text(
        lower,
        "signed in to another account"@,
    ) || crate::text::contains_text(lower, "invalid_grant"@)
}

/// Whether a text in lower case says that the account was banned.
pub open spec fn banned(lower: Seq<char>) -> bool {
    crate::text::contains_text(lower, "deactivated"@) || crate::text::contains_text(
        lower,
        "banned"@,
    ) || crate::text::contains_text(lower, "suspended"@)
}

/// Whether a document says that the account was banned.
pub open spec fn soft_ban(doc: JsonTree) -> bool {
    match doc.get_in("detail"@, "code"@) {
        Some(c) => match c.text() {
            Some(code) => banned(crate::text::lowercase(code)),
            None => false,
        },
        None => false,
    }
}

// ---------------------------------------------------------------------- relays

/// What a relay answered last. What remains is the text of a number.
#[derive(Clone, Debug)]
pub struct RelayUsageCache {
    pub remaining: String,
    pub unit: String,
    pub is_active: bool,
    pub next_reset_at: Option<i64>,
    pub updated_at: Timestamp,
}

impl RelayUsageCache {
    /// What a relay answered just now.
    pub fn stamped(remaining: String, unit: &str, is_active: bool, next_reset_at: Option<i64>) -> (r:
        RelayUsageCache)
        ensures
            r.remaining@ == remaining@,
            r.unit@ == unit@,
            r.is_active == is_active,
            r.next_reset_at == next_reset_at,
            r.updated_at.valid(),
    {
        RelayUsageCache {
            remaining,
            unit: unit.to_owned(),
            is_active,
            next_reset_at,
            updated_at: utc_now(),
        }
    }
}

/// How much of a body is shown in an error.
pub const PREVIEW_CHARS: usize = 200;

/// The error for an answer that did not go well.
pub open spec fn http_error(what: Seq<char>, url: Seq<char>, body: Seq<char>) -> Seq<char> {
    "HTTP "@ + what + " @ "@ + url + " → "@ + crate::text::head(body, PREVIEW_CHARS as int)
}

/// Why an answer gives no document, if it gives none: its status, or its body.
pub open spec fn no_document(answer: Answer, url: Seq<char>, front: Seq<char>) -> Option<
    Seq<char>,
> {
    if !succeeded(answer.status) {
        Some(http_error(crate::text::decimal(answer.status as int), url, answer.text@))
    } else if answer.document() is None {
        Some(answer.undecodable(front))
    } else {
        None
    }
}

/// What remains, in the manner of OpenAI, or of a dashboard.
pub const USD: &'static str = "USD";

/// What remains of GLM's tokens.
pub const GLM_UNIT: &'static str = "% tokens";

/// What remains of MiMo's credits.
pub const MIMO_UNIT: &'static str = "% MiMo Credits";

/// A path behind the base address of a relay.
pub open spec fn relay_url(base: Seq<char>, path: Seq<char>) -> Seq<char> {
    crate::text::trim_back(base, Edge::Slash) + path
}

/// What an answer in the manner of OpenAI says to be remaining.
pub open spec fn relay_remaining(body: JsonTree) -> Option<Seq<char>> {
    crate::text::either(
        body.number_at("remaining"@),
        crate::text::either(
            match body.get("quota"@) {
                Some(q) => q.number_at("remaining"@),
                None => None,
            },
            body.number_at("balance"@),
        ),
    )
}

/// The unit of what remains.
pub open spec fn relay_unit(body: JsonTree) -> Seq<char> {
    crate::text::either(
        body.text_at("unit"@),
        crate::text::either(
            match body.get("quota"@) {
                Some(q) => q.text_at("unit"@),
                None => None,
            },
            Some("USD"@),
        ),
    )->Some_0
}

/// Whether the key is in use.
pub open spec fn relay_active(body: JsonTree) -> bool {
    match body.flag_at("is_active"@) {
        Some(b) => b,
        None => match body.flag_at("isValid"@) {
            Some(b) => b,
            None => true,
        },
    }
}

/// What an answer tells, where there is one and it went well.
pub open spec fn told(answer: Option<Answer>) -> Option<JsonTree> {
    match answer {
        Some(a) => if succeeded(a.status) {
            a.document()
        } else {
            None
        },
        None => None,
    }
}

/// Whether a document gives a limit, as dashboards do.
pub open spec fn gives_limit(body: JsonTree) -> bool {
    body.get("soft_limit_usd"@) is Some || body.get("hard_limit_usd"@) is Some
}

/// Whether a document gives what remains, in the manner of OpenAI.
pub open spec fn gives_remaining(body: JsonTree) -> bool {
    body.get("remaining"@) is Some || body.get("balance"@) is Some || body.get_in(
        "quota"@,
        "remaining"@,
    ) is Some
}

/// The first limit that says how much of it is used, in percent. Where only the
/// limit on tokens counts, the others are passed over.
pub open spec fn limit_percentage(limits: Seq<JsonTree>, tokens_only: bool) -> Option<Seq<char>>
    decreases limits.len(),
{
    if limits.len() == 0 {
        None
    } else if (!tokens_only || limits[0].text_at("type"@) == Some("TOKENS_LIMIT"@))
        && limits[0].number_at("percentage"@) is Some {
        limits[0].number_at("percentage"@)
    } else {
        limit_percentage(limits.skip(1), tokens_only)
    }
}

/// The first reset, in milliseconds, that a limit gives.
pub open spec fn limit_reset(limits: Seq<JsonTree>) -> Option<int>
    decreases limits.len(),
{
    if limits.len() == 0 {
        None
    } else {
        match limits[0].int_at("nextResetTime"@) {
            Some(ms) => Some(ms),
            None => limit_reset(limits.skip(1)),
        }
    }
}

/// Whole seconds in so many milliseconds, towards zero.
pub open spec fn whole_seconds(ms: int) -> int {
    if ms >= 0 {
        ms / 1_000
    } else {
        -((-ms) / 1_000)
    }
}

/// The limits in an answer.
pub open spec fn limits_of(body: JsonTree) -> Seq<JsonTree> {
    match body.get_in("data"@, "limits"@) {
        Some(l) => match l.items() {
            Some(items) => items,
            None => Seq::empty(),
        },
        None => Seq::empty(),
    }
}

/// How much of the quota is used, in percent, and when it is reset.
#[derive(Clone, Debug)]
pub struct GlmQuota {
    /// The text of a number; nothing is used where there is none.
    pub used_percent: Option<String>,
    pub next_reset_at: Option<i64>,
}

/// Whether a quota is what a document says: how much of the tokens is used, or
/// else of the first limit that says so, and when the first one that says so is
/// reset.
pub open spec fn says_glm(q: GlmQuota, body: JsonTree) -> bool {
    let limits = limits_of(body);
    &&& answer_code(body) == 200
    &&& crate::text::opt_text(q.used_percent) == crate::text::either(
        limit_percentage(limits, true),
        limit_percentage(limits, false),
    )
    &&& match limit_reset(limits) {
        Some(ms) => q.next_reset_at is Some && q.next_reset_at->Some_0 == whole_seconds(ms),
        None => q.next_reset_at is None,
    }
}

/// A code that an answer carries, or 0.
pub open spec fn answer_code(body: JsonTree) -> int {
    match body.int_at("code"@) {
        Some(c) => c,
        None => 0,
    }
}

/// The error for an answer whose code says that it did not go well.
pub open spec fn code_error(front: Seq<char>, body: JsonTree, default_message: Seq<char>) -> Seq<
    char,
> {
    front + crate::text::decimal(answer_code(body)) + " msg="@ + crate::text::either(
        body.text_at("message"@),
        Some(default_message),
    )->Some_0
}

/// The parts of an address: its scheme, its host, and the port that it names.
pub uninterp spec fn address_parts(text: Seq<char>) -> Option<
    (Seq<char>, Option<Seq<char>>, Option<u16>),
>;

/// The parts of an address.
pub struct Address {
    pub scheme: String,
    pub host: Option<String>,
    pub port: Option<u16>,
}

/// Calls `url::Url::parse`, and `scheme`, `host_str` and `port` on what it
/// gives. The result is a function of the text alone.
#[verifier::external_body]
fn parse_address(text: &str) -> (r: Option<Address>)
    ensures
        match r {
            Some(a) => address_parts(text@) == Some(
                (a.scheme@, crate::text::opt_text(a.host), a.port),
            ),
            None => address_parts(text@) is None,
        },
{
    let url = url::Url::parse(text).ok()?;
    let host = url.host_str().map(|h| h.to_string());
    Some(Address { scheme: url.scheme().to_string(), host, port: url.port() })
}

/// The scheme, host and port of an address, written as one.
pub open spec fn origin(parts: (Seq<char>, Option<Seq<char>>, Option<u16>)) -> Option<Seq<char>> {
    match parts.1 {
        Some(host) => Some(
            parts.0 + "://"@ + host + match parts.2 {
                Some(p) => ":"@ + crate::text::decimal(p as int),
                None => ""@,
            },
        ),
        None => None,
    }
}

/// The origin of an address given as text.
pub open spec fn origin_of(text: Seq<char>) -> Option<Seq<char>> {
    match address_parts(text) {
        Some(parts) => origin(parts),
        None => None,
    }
}

impl Address {
    /// The scheme, host and port, written as one.
    pub fn origin(&self) -> (r: Option<String>)
        ensures
            crate::text::opt_text(r) == origin(
                (self.scheme@, crate::text::opt_text(self.host), self.port),
            ),
    {
        match &self.host {
            Some(host) => {
                let front = joined3(self.scheme.as_str(), "://", host.as_str());
                let port = match self.port {
                    Some(p) => joined(":", write_decimal(p as i128).as_str()),
                    None => "".to_owned(),
                };
                Some(joined(front.as_str(), port.as_str()))
            },
            None => None,
        }
    }
}

impl UsageFetcher {
    /// The error for an answer that did not go well.
    pub fn http_failure(what: &str, url: &str, body: &str) -> (r: String)
        ensures
            r@ == http_error(what@, url@, body@),
    {
        let preview = take_head(body, PREVIEW_CHARS);
        let front = joined3(joined("HTTP ", what).as_str(), " @ ", url);
        joined3(front.as_str(), " → ", preview.as_str())
    }

    /// The error for an answer with a status that says that it did not go well.
    pub fn status_failure(status: u16, url: &str, body: &str) -> (r: Option<String>)
        ensures
            crate::text::opt_text(r) == if succeeded(status) {
                None
            } else {
                Some(http_error(crate::text::decimal(status as int), url@, body@))
            },
    {
        if is_success(status) {
            None
        } else {
            let what = write_decimal(status as i128);
            Some(UsageFetcher::http_failure(what.as_str(), url, body))
        }
    }

    /// A path behind the base address of a relay.
    pub fn relay_address(base_url: &str, path: &str) -> (r: String)
        ensures
            r@ == relay_url(base_url@, path@),
    {
        joined(trim_end(base_url, Edge::Slash).as_str(), path)
    }

    /// Where to ask a relay in the manner of OpenAI.
    pub fn usage_url(base_url: &str) -> (r: String)
        ensures
            r@ == relay_url(base_url@, "/v1/usage"@),
    {
        UsageFetcher::relay_address(base_url, "/v1/usage")
    }

    /// Where to ask a relay with a dashboard for its limit.
    pub fn subscription_url(base_url: &str) -> (r: String)
        ensures
            r@ == relay_url(base_url@, "/v1/dashboard/billing/subscription"@),
    {
        UsageFetcher::relay_address(base_url, "/v1/dashboard/billing/subscription")
    }

    /// Where to ask a relay with a dashboard for what was used.
    pub fn billing_usage_url(base_url: &str) -> (r: String)
        ensures
            r@ == relay_url(base_url@, "/v1/dashboard/billing/usage"@),
    {
        UsageFetcher::relay_address(base_url, "/v1/dashboard/billing/usage")
    }

    /// What an answer in the manner of OpenAI says: what remains, its unit, and
    /// whether the key is in use.
    pub fn parse_relay_usage(body: &Json) -> (r: Result<(String, String, bool), String>)
        ensures
            match r {
                Ok((remaining, unit, active)) => relay_remaining(body@) == Some(remaining@)
                    && unit@ == relay_unit(body@) && active == relay_active(body@),
                Err(e) => relay_remaining(body@) is None
                    && e@ == "上游响应缺 remaining/balance 字段"@,
            },
    {
        let quota = body.get("quota");
        let inner = match quota {
            Some(q) => q.number_under("remaining"),
            None => None,
        };
        let found = or_text(
            body.number_under("remaining"),
            or_text(inner, body.number_under("balance")),
        );
        let remaining = match found {
            Some(n) => n,
            None => {
                return Err("上游响应缺 remaining/balance 字段".to_owned());
            },
        };
        let inner_unit = match quota {
            Some(q) => q.text_under("unit"),
            None => None,
        };
        let unit = match or_text(body.text_under("unit"), inner_unit) {
            Some(u) => u,
            None => "USD".to_owned(),
        };
        let active = match body.flag_under("is_active") {
            Some(b) => b,
            None => match body.flag_under("isValid") {
                Some(b) => b,
                None => true,
            },
        };
        Ok((remaining, unit, active))
    }

    /// The document that an answer gives, or the error where it gives none.
    pub fn answer_document(answer: &Answer, url: &str, front: &str) -> (r: Result<Json, String>)
        ensures
            match r {
                Ok(doc) => no_document(*answer, url@, front@) is None && answer.document() == Some(
                    doc@,
                ),
                Err(e) => no_document(*answer, url@, front@) == Some(e@),
            },
    {
        match UsageFetcher::status_failure(answer.status, url, answer.text.as_str()) {
            Some(e) => Err(e),
            None => answer.read(front),
        }
    }

    /// What a relay answered in the manner of OpenAI.
    pub fn relay_usage_openai_compat(answer: &Answer, url: &str) -> (r: Result<
        RelayUsageCache,
        String,
    >)
        ensures
            match r {
                Ok(cache) => {
                    &&& no_document(*answer, url@, "usage JSON 解析失败: "@) is None
                    &&& relay_remaining(answer.document()->Some_0) == Some(cache.remaining@)
                    &&& cache.unit@ == relay_unit(answer.document()->Some_0)
                    &&& cache.is_active == relay_active(answer.document()->Some_0)
                    &&& cache.next_reset_at is None
                    &&& cache.updated_at.valid()
                },
                Err(e) => match no_document(*answer, url@, "usage JSON 解析失败: "@) {
                    Some(reason) => e@ == reason,
                    None => relay_remaining(answer.document()->Some_0) is None
                        && e@ == "上游响应缺 remaining/balance 字段"@,
                },
            },
    {
        let doc = match UsageFetcher::answer_document(answer, url, "usage JSON 解析失败: ") {
            Ok(d) => d,
            Err(e) => {
                return Err(e);
            },
        };
        match UsageFetcher::parse_relay_usage(&doc) {
            Ok((remaining, unit, active)) => Ok(
                RelayUsageCache::stamped(remaining, unit.as_str(), active, None),
            ),
            Err(e) => Err(e),
        }
    }

    /// The limit that a dashboard answered, as the text of a number.
    pub fn subscription_limit(answer: &Answer, url: &str) -> (r: Result<String, String>)
        ensures
            match r {
                Ok(n) => succeeded(answer.status) && answer.document() is Some
                    && answer.document()->Some_0.number_at("soft_limit_usd"@) == Some(n@),
                Err(e) => if !succeeded(answer.status) {
                    e@ == http_error("subscription"@, url@, answer.text@)
                } else {
                    match answer.document() {
                        None => e@ == answer.undecodable("subscription JSON 解析失败: "@),
                        Some(doc) => doc.number_at("soft_limit_usd"@) is None
                            && e@ == "subscription 缺 soft_limit_usd 字段"@,
                    }
                },
            },
    {
        if !is_success(answer.status) {
            return Err(UsageFetcher::http_failure("subscription", url, answer.text.as_str()));
        }
        match answer.read("subscription JSON 解析失败: ") {
            Ok(doc) => UsageFetcher::parse_subscription(&doc),
            Err(e) => Err(e),
        }
    }

    /// What a dashboard answered to be used, in hundredths, as the text of a
    /// number. Nothing is where the answer did not go well.
    pub fn billed_usage(answer: &Answer) -> (r: Result<Option<String>, String>)
        ensures
            match r {
                Ok(n) => if succeeded(answer.status) {
                    answer.document() is Some && crate::text::opt_text(n)
                        == answer.document()->Some_0.number_at("total_usage"@)
                } else {
                    n is None
                },
                Err(e) => succeeded(answer.status) && answer.document() is None
                    && e@ == answer.undecodable("usage JSON 解析失败: "@),
            },
    {
        if !is_success(answer.status) {
            return Ok(None);
        }
        match answer.read("usage JSON 解析失败: ") {
            Ok(doc) => Ok(UsageFetcher::parse_total_usage(&doc)),
            Err(e) => Err(e),
        }
    }

    /// The limit that a dashboard gives, as the text of a number.
    pub fn parse_subscription(body: &Json) -> (r: Result<String, String>)
        ensures
            match r {
                Ok(n) => body@.number_at("soft_limit_usd"@) == Some(n@),
                Err(e) => body@.number_at("soft_limit_usd"@) is None
                    && e@ == "subscription 缺 soft_limit_usd 字段"@,
            },
    {
        match body.number_under("soft_limit_usd") {
            Some(n) => Ok(n),
            None => Err("subscription 缺 soft_limit_usd 字段".to_owned()),
        }
    }

    /// What was used, in hundredths, as a dashboard gives it. Nothing was where
    /// it does not say.
    pub fn parse_total_usage(body: &Json) -> (r: Option<String>)
        ensures
            crate::text::opt_text(r) == body@.number_at("total_usage"@),
    {
        body.number_under("total_usage")
    }

    /// How a relay is to be asked, given what it answered when it was asked for
    /// its limit, or, once that told nothing, in the manner of OpenAI. An
    /// answer that did not go well, or none at all, tells nothing.
    pub fn probed_preset(subscription: &Option<Answer>, usage: &Option<Answer>) -> (r: Option<
        String,
    >)
        ensures
            crate::text::opt_text(r) == if told(*subscription) is Some && gives_limit(
                told(*subscription)->Some_0,
            ) {
                Some("new_api_dashboard"@)
            } else if told(*usage) is Some && gives_remaining(told(*usage)->Some_0) {
                Some("openai_compat"@)
            } else {
                None
            },
    {
        if let Some(a) = subscription {
            if is_success(a.status) {
                if let Ok(doc) = a.read("") {
                    if let Some(p) = UsageFetcher::preset_of_subscription(&doc) {
                        return Some(p);
                    }
                }
            }
        }
        if let Some(a) = usage {
            if is_success(a.status) {
                if let Ok(doc) = a.read("") {
                    return UsageFetcher::preset_of_usage(&doc);
                }
            }
        }
        None
    }

    /// How a relay is to be asked, where it gave this answer when it was asked
    /// for its limit.
    pub fn preset_of_subscription(body: &Json) -> (r: Option<String>)
        ensures
            crate::text::opt_text(r) == if gives_limit(body@) {
                Some("new_api_dashboard"@)
            } else {
                None
            },
    {
        if body.get("soft_limit_usd").is_some() || body.get("hard_limit_usd").is_some() {
            Some("new_api_dashboard".to_owned())
        } else {
            None
        }
    }

    /// How a relay is to be asked, where it gave this answer when it was asked
    /// in the manner of OpenAI.
    pub fn preset_of_usage(body: &Json) -> (r: Option<String>)
        ensures
            crate::text::opt_text(r) == if gives_remaining(body@) {
                Some("openai_compat"@)
            } else {
                None
            },
    {
        if body.get("remaining").is_some() || body.get("balance").is_some() || body.get_inner(
            "quota",
            "remaining",
        ).is_some() {
            Some("openai_compat".to_owned())
        } else {
            None
        }
    }

    /// Where to ask GLM for its quota: at the origin of its base address.
    pub fn glm_quota_url(base_url: &str) -> (r: Result<String, String>)
        ensures
            match r {
                Ok(url) => origin_of(base_url@) is Some && url@ == origin_of(base_url@)->Some_0
                    + "/api/monitor/usage/quota/limit"@,
                Err(e) => origin_of(base_url@) is None && e@ == "无法从 base_url 解析 origin: "@
                    + base_url@,
            },
    {
        let found = match parse_address(base_url) {
            Some(a) => a.origin(),
            None => None,
        };
        match found {
            Some(o) => Ok(joined(o.as_str(), "/api/monitor/usage/quota/limit")),
            None => Err(joined("无法从 base_url 解析 origin: ", base_url)),
        }
    }

    fn find_percentage(limits: &Vec<Json>, tokens_only: bool) -> (r: Option<String>)
        ensures
            crate::text::opt_text(r) == limit_percentage(
                crate::json::trees(limits@),
                tokens_only,
            ),
    {
        let ghost all = crate::json::trees(limits@);
        assert(all.skip(0) =~= all);
        for i in 0..limits.len()
            invariant
                all == crate::json::trees(limits@),
                limit_percentage(all, tokens_only) == limit_percentage(
                    all.skip(i as int),
                    tokens_only,
                ),
        {
            let ghost rest = all.skip(i as int);
            assert(rest[0] == limits@[i as int]@);
            assert(rest.skip(1) =~= all.skip(i + 1));
            let counts = !tokens_only || match limits[i].text_under("type") {
                Some(t) => same_text(t.as_str(), "TOKENS_LIMIT"),
                None => false,
            };
            if counts {
                match limits[i].number_under("percentage") {
                    Some(n) => {
                        return Some(n);
                    },
                    None => {},
                }
            }
        }
        None
    }

    fn find_reset(limits: &Vec<Json>) -> (r: Option<i64>)
        ensures
            match r {
                Some(ms) => limit_reset(crate::json::trees(limits@)) == Some(ms as int),
                None => limit_reset(crate::json::trees(limits@)) is None,
            },
    {
        let ghost all = crate::json::trees(limits@);
        assert(all.skip(0) =~= all);
        for i in 0..limits.len()
            invariant
                all == crate::json::trees(limits@),
                limit_reset(all) == limit_reset(all.skip(i as int)),
        {
            let ghost rest = all.skip(i as int);
            assert(rest[0] == limits@[i as int]@);
            assert(rest.skip(1) =~= all.skip(i + 1));
            match limits[i].int_under("nextResetTime") {
                Some(ms) => {
                    return Some(ms);
                },
                None => {},
            }
        }
        None
    }

    /// What GLM says of its quota: how much of the tokens is used, or else of
    /// the first limit that says so, and when the first one that says so is
    /// reset.
    pub fn parse_glm_quota(body: &Json) -> (r: Result<GlmQuota, String>)
        ensures
            match r {
                Ok(q) => says_glm(q, body@),
                Err(e) => answer_code(body@) != 200 && e@ == code_error(
                    "GLM code="@,
                    body@,
                    "non-200 code"@,
                ),
            },
    {
        let code: i64 = match body.int_under("code") {
            Some(c) => c,
            None => 0,
        };
        if code != 200 {
            return Err(UsageFetcher::code_failure("GLM code=", body, code, "non-200 code"));
        }
        let none: Vec<Json> = Vec::new();
        let limits = match body.get_inner("data", "limits") {
            Some(l) => match l.as_array() {
                Some(items) => items,
                None => &none,
            },
            None => &none,
        };
        assert(crate::json::trees(limits@) =~= limits_of(body@));
        let used_percent = or_text(
            UsageFetcher::find_percentage(limits, true),
            UsageFetcher::find_percentage(limits, false),
        );
        let next_reset_at: Option<i64> = match UsageFetcher::find_reset(limits) {
            Some(ms) => if ms >= 0 {
                Some(ms / 1_000)
            } else {
                Some((0 - (0 - ms as i128) / 1_000) as i64)
            },
            None => None,
        };
        Ok(GlmQuota { used_percent, next_reset_at })
    }

    /// What GLM answered of its quota.
    pub fn glm_quota(answer: &Answer, url: &str) -> (r: Result<GlmQuota, String>)
        ensures
            match r {
                Ok(q) => no_document(*answer, url@, "usage JSON 解析失败: "@) is None && says_glm(
                    q,
                    answer.document()->Some_0,
                ),
                Err(e) => match no_document(*answer, url@, "usage JSON 解析失败: "@) {
                    Some(reason) => e@ == reason,
                    None => answer_code(answer.document()->Some_0) != 200 && e@ == code_error(
                        "GLM code="@,
                        answer.document()->Some_0,
                        "non-200 code"@,
                    ),
                },
            },
    {
        match UsageFetcher::answer_document(answer, url, "usage JSON 解析失败: ") {
            Ok(doc) => UsageFetcher::parse_glm_quota(&doc),
            Err(e) => Err(e),
        }
    }

    fn code_failure(front: &str, body: &Json, code: i64, default_message: &str) -> (r: String)
        requires
            code == answer_code(body@),
        ensures
            r@ == code_error(front@, body@, default_message@),
    {
        let message = match body.text_under("message") {
            Some(m) => m,
            None => default_message.to_owned(),
        };
        let start = joined(front, write_decimal(code as i128).as_str());
        joined3(start.as_str(), " msg=", message.as_str())
    }
}

// ------------------------------------------------------------------------ MiMo

/// What is used of the month, as MiMo says it. Each is the text of a number.
#[derive(Clone, Debug)]
pub enum MimoShare {
    /// The part that is used, or the percentage where it is above 1.
    Part(String),
    /// What is used of what there is. Nothing is where there is no number.
    Ratio { used: Option<String>, limit: String },
}

/// What a `MimoShare` says.
pub ghost enum Share {
    Part(Seq<char>),
    Ratio { used: Option<Seq<char>>, limit: Seq<char> },
}

impl View for MimoShare {
    type V = Share;

    open spec fn view(&self) -> Share {
        match *self {
            MimoShare::Part(t) => Share::Part(t@),
            MimoShare::Ratio { used, limit } => Share::Ratio {
                used: crate::text::opt_text(used),
                limit: limit@,
            },
        }
    }
}

/// The first item of the month.
pub open spec fn month_item(body: JsonTree) -> Option<JsonTree> {
    match body.get_in("data"@, "monthUsage"@) {
        Some(m) => match m.items_at("items"@) {
            Some(items) => if items.len() > 0 {
                Some(items[0])
            } else {
                None
            },
            None => None,
        },
        None => None,
    }
}

/// What is used of the month: the part that the item gives, or else the month,
/// or else what is used of the limit, where there is a limit above 0.
pub open spec fn month_share(
    body: JsonTree,
    item: JsonTree,
    readings: Map<Seq<char>, Reading>,
) -> Option<Share> {
    let part = crate::text::either(
        crate::figures::read_figure(item.get("percent"@), readings),
        crate::figures::read_figure(
            match body.get_in("data"@, "monthUsage"@) {
                Some(m) => m.get("percent"@),
                None => None,
            },
            readings,
        ),
    );
    match part {
        Some(t) => Some(Share::Part(t)),
        None => match crate::figures::reading(item.get("limit"@), readings) {
            Some(x) => if x.positive {
                Some(
                    Share::Ratio {
                        used: crate::figures::read_figure(item.get("used"@), readings),
                        limit: crate::figures::figure(item.get("limit"@)->Some_0)->Some_0,
                    },
                )
            } else {
                None
            },
            None => None,
        },
    }
}

/// Why an answer of MiMo says nothing of what is used, if it does not.
pub open spec fn mimo_failure(body: JsonTree, readings: Map<Seq<char>, Reading>) -> Option<
    Seq<char>,
> {
    if answer_code(body) != 0 {
        Some(code_error("MiMo usage code="@, body, "non-zero code"@))
    } else {
        match month_item(body) {
            None => Some("MiMo usage 响应缺 monthUsage.items"@),
            Some(item) => if month_share(body, item, readings) is None {
                Some("MiMo usage 响应缺 percent/used/limit"@)
            } else {
                None
            },
        }
    }
}

/// A plan ends a day behind the time that the console gives.
pub const PERIOD_END_DELAY: i64 = 86_400;

/// When a period ends, in seconds.
pub open spec fn period_end(value: Seq<char>) -> Option<int> {
    match crate::clock::naive_time(
        crate::text::trimmed(value, Edge::Space),
        "%Y-%m-%d %H:%M:%S"@,
    ) {
        Some(t) => Some(t.secs + PERIOD_END_DELAY),
        None => None,
    }
}

/// When the period ends that a document speaks of.
pub open spec fn period_end_of(detail: Option<JsonTree>) -> Option<int> {
    match detail {
        Some(d) => match d.get_in("data"@, "currentPeriodEnd"@) {
            Some(v) => match v.text() {
                Some(t) => period_end(t),
                None => None,
            },
            None => None,
        },
        None => None,
    }
}

/// The error for an answer of the console that did not go well.
pub open spec fn console_error(status: u16, url: Seq<char>, body: Seq<char>) -> Option<Seq<char>> {
    if status == 401 {
        Some("MiMo 登录态已失效，请重新登录后复制 Cookie"@)
    } else if status == 403 {
        Some("MiMo Cookie 无效或权限不足"@)
    } else if !succeeded(status) {
        Some(http_error(crate::text::decimal(status as int), url, body))
    } else {
        None
    }
}

impl UsageFetcher {
    /// The error for an answer of the console that did not go well.
    pub fn console_failure(status: u16, url: &str, body: &str) -> (r: Option<String>)
        ensures
            crate::text::opt_text(r) == console_error(status, url@, body@),
    {
        if status == 401 {
            Some("MiMo 登录态已失效，请重新登录后复制 Cookie".to_owned())
        } else if status == 403 {
            Some("MiMo Cookie 无效或权限不足".to_owned())
        } else {
            UsageFetcher::status_failure(status, url, body)
        }
    }

    /// The document that the console answered, or the error where it gave none.
    pub fn console_document(answer: &Answer, url: &str) -> (r: Result<Json, String>)
        ensures
            match r {
                Ok(doc) => succeeded(answer.status) && answer.document() == Some(doc@),
                Err(e) => match console_error(answer.status, url@, answer.text@) {
                    Some(reason) => e@ == reason,
                    None => answer.document() is None && e@ == answer.undecodable(
                        "MiMo usage JSON 解析失败: "@,
                    ),
                },
            },
    {
        match UsageFetcher::console_failure(answer.status, url, answer.text.as_str()) {
            Some(e) => Err(e),
            None => answer.read("MiMo usage JSON 解析失败: "),
        }
    }

    /// What is used of the month, given what the numbers read as.
    pub fn parse_mimo_usage(body: &Json, readings: &Readings) -> (r: Result<MimoShare, String>)
        requires
            readings.wf(),
        ensures
            match r {
                Ok(share) => mimo_failure(body@, readings@) is None && month_share(
                    body@,
                    month_item(body@)->Some_0,
                    readings@,
                ) == Some(share@),
                Err(e) => mimo_failure(body@, readings@) == Some(e@),
            },
    {
        let code: i64 = match body.int_under("code") {
            Some(c) => c,
            None => 0,
        };
        if code != 0 {
            return Err(
                UsageFetcher::code_failure("MiMo usage code=", body, code, "non-zero code"),
            );
        }
        let month = body.get_inner("data", "monthUsage");
        let items = match month {
            Some(m) => m.items_under("items"),
            None => None,
        };
        let item = match items {
            Some(list) => if list.len() > 0 {
                &list[0]
            } else {
                return Err("MiMo usage 响应缺 monthUsage.items".to_owned());
            },
            None => {
                return Err("MiMo usage 响应缺 monthUsage.items".to_owned());
            },
        };
        assert(month_item(body@) == Some(item@));
        let of_month = match month {
            Some(m) => m.get("percent"),
            None => None,
        };
        let part = or_text(
            number_figure(item.get("percent"), readings),
            number_figure(of_month, readings),
        );
        match part {
            Some(t) => Ok(MimoShare::Part(t)),
            None => {
                let positive = match parse_number(item.get("limit"), readings) {
                    Some(x) => x.positive,
                    None => false,
                };
                match number_figure(item.get("limit"), readings) {
                    Some(limit) => if positive {
                        let used = number_figure(item.get("used"), readings);
                        Ok(MimoShare::Ratio { used, limit })
                    } else {
                        Err("MiMo usage 响应缺 percent/used/limit".to_owned())
                    },
                    None => Err("MiMo usage 响应缺 percent/used/limit".to_owned()),
                }
            },
        }
    }

    /// When a period ends, in seconds.
    pub fn parse_mimo_period_end(value: &str) -> (r: Option<i64>)
        ensures
            match r {
                Some(t) => period_end(value@) == Some(t as int),
                None => period_end(value@) is None,
            },
    {
        match parse_naive(trim(value, Edge::Space).as_str(), "%Y-%m-%d %H:%M:%S") {
            Some(t) => Some(t.secs + PERIOD_END_DELAY),
            None => None,
        }
    }

    /// When the period ends that an answer of the console speaks of.
    pub fn mimo_reset(detail: Option<&Json>) -> (r: Option<i64>)
        ensures
            match r {
                Some(t) => period_end_of(crate::json::opt_tree(detail)) == Some(t as int),
                None => period_end_of(crate::json::opt_tree(detail)) is None,
            },
    {
        match detail {
            Some(d) => match d.get_inner("data", "currentPeriodEnd") {
                Some(v) => match v.as_str() {
                    Some(t) => UsageFetcher::parse_mimo_period_end(t),
                    None => None,
                },
                None => None,
            },
            None => None,
        }
    }
}

// --------------------------------------------------------------------- cookies

/// What stands behind the first `cookie:` in a text, whatever the case of its
/// letters, or all of it where there is none.
pub open spec fn behind_label(text: Seq<char>) -> Seq<char> {
    let lower = crate::text::ascii_lowercase(text);
    if crate::text::contains_text(lower, "cookie:"@) {
        text.skip(first_place(lower, "cookie:"@) + "cookie:"@.len())
    } else {
        text
    }
}

/// The first place where a text holds another.
pub open spec fn first_place(s: Seq<char>, needle: Seq<char>) -> int {
    choose|i: int|
        crate::text::occurs_at(s, needle, i) && forall|j: int|
            0 <= j < i ==> !#[trigger] crate::text::occurs_at(s, needle, j)
}

/// The line of cookies in a pasted text, without the label before it and the
/// quotes around it.
pub open spec fn cookie_line(raw: Seq<char>) -> Seq<char> {
    let text = behind_label(crate::text::trimmed(raw, Edge::Space));
    let line = crate::text::before(text, '\n');
    crate::text::trimmed(crate::text::trimmed(line, Edge::Space), Edge::ShellQuote)
}

/// The name and the value of a cookie.
pub open spec fn cookie(piece: Seq<char>) -> Option<(Seq<char>, Seq<char>)> {
    let t = crate::text::trimmed(piece, Edge::Space);
    if t.contains('=') {
        Some(
            (
                crate::text::trimmed(crate::text::before(t, '='), Edge::Space),
                crate::text::trimmed(
                    crate::text::trimmed(crate::text::behind(t, '='), Edge::Space),
                    Edge::Quote,
                ),
            ),
        )
    } else {
        None
    }
}

/// Whether a cookie has this name and some value.
pub open spec fn names_cookie(piece: Seq<char>, name: Seq<char>) -> bool {
    match cookie(piece) {
        Some(c) => c.0 == name && c.1.len() > 0,
        None => false,
    }
}

/// The value of the last cookie with this name that has some.
pub open spec fn cookie_value(pieces: Seq<Seq<char>>, name: Seq<char>) -> Option<Seq<char>>
    decreases pieces.len(),
{
    if pieces.len() == 0 {
        None
    } else if names_cookie(pieces.last(), name) {
        Some(cookie(pieces.last())->Some_0.1)
    } else {
        cookie_value(pieces.drop_last(), name)
    }
}

/// A cookie, written as one.
pub open spec fn cookie_pair(name: Seq<char>, value: Seq<char>) -> Seq<char> {
    name + "="@ + value
}

/// The header that holds these cookies, by name.
pub open spec fn cookie_header(
    ph: Option<Seq<char>>,
    token: Seq<char>,
    slh: Option<Seq<char>>,
    user: Seq<char>,
) -> Seq<char> {
    let front = match ph {
        Some(v) => cookie_pair("api-platform_ph"@, v) + "; "@,
        None => ""@,
    };
    let middle = match slh {
        Some(v) => "; "@ + cookie_pair("api-platform_slh"@, v),
        None => ""@,
    };
    front + cookie_pair("api-platform_serviceToken"@, token) + middle + "; "@ + cookie_pair(
        "userId"@,
        user,
    )
}

/// The header that the console wants: the cookies that it knows, by name. There
/// is none without the token and the user.
pub open spec fn console_header(raw: Seq<char>) -> Option<Seq<char>> {
    let pieces = crate::text::split_on(cookie_line(raw), ';');
    let token = cookie_value(pieces, "api-platform_serviceToken"@);
    let user = cookie_value(pieces, "userId"@);
    if token is None || user is None {
        None
    } else {
        Some(
            cookie_header(
                cookie_value(pieces, "api-platform_ph"@),
                token->Some_0,
                cookie_value(pieces, "api-platform_slh"@),
                user->Some_0,
            ),
        )
    }
}

/// An ASCII letter or digit, a hyphen or an underscore.
pub open spec fn is_word_char(c: char) -> bool {
    ('a' <= c <= 'z') || ('A' <= c <= 'Z') || ('0' <= c <= '9') || c == '-' || c == '_'
}

/// A text of such characters, and of some.
pub open spec fn is_word(s: Seq<char>) -> bool {
    s.len() > 0 && forall|i: int| 0 <= i < s.len() ==> is_word_char(#[trigger] s[i])
}

/// Whether a cookie that is there has a word for its value.
pub open spec fn word_if_any(value: Option<Seq<char>>) -> bool {
    value is Some ==> is_word(value->Some_0)
}

proof fn lemma_nothing_to_trim(s: Seq<char>, e: Edge)
    requires
        s.len() > 0 ==> !e.takes(s[0]) && !e.takes(s.last()),
    ensures
        crate::text::trimmed(s, e) == s,
{
}

/// What a cookie of words gives when it is read, with a space before it or not.
proof fn lemma_pair_is_read(name: Seq<char>, value: Seq<char>)
    requires
        is_word(name),
        is_word(value),
    ensures
        cookie(cookie_pair(name, value)) == Some((name, value)),
        cookie(seq![' '] + cookie_pair(name, value)) == Some((name, value)),
{
    reveal_strlit("=");
    let t = cookie_pair(name, value);
    let spaced = seq![' '] + t;
    assert(t[0] == name[0]);
    assert(t.last() == value.last());
    lemma_nothing_to_trim(t, Edge::Space);
    assert(spaced[0] == ' ');
    assert(spaced.skip(1) =~= t);
    assert(crate::text::trim_front(spaced, Edge::Space) == crate::text::trim_front(
        t,
        Edge::Space,
    ));
    crate::text::lemma_first_index(t, '=');
    assert(t[name.len() as int] == '=');
    assert(forall|i: int| 0 <= i < name.len() ==> t[i] == name[i]);
    assert(crate::text::before(t, '=') =~= name);
    assert(crate::text::behind(t, '=') =~= value);
    lemma_nothing_to_trim(name, Edge::Space);
    lemma_nothing_to_trim(value, Edge::Space);
    lemma_nothing_to_trim(value, Edge::Quote);
}

/// A character of a header that is made of words.
spec fn in_header(c: char) -> bool {
    is_word_char(c) || c == '=' || c == ';' || c == ' '
}

spec fn all_in_header(s: Seq<char>) -> bool {
    forall|i: int| 0 <= i < s.len() ==> in_header(#[trigger] s[i])
}

proof fn lemma_both_in_header(a: Seq<char>, b: Seq<char>)
    requires
        all_in_header(a),
        all_in_header(b),
    ensures
        all_in_header(a + b),
{
    assert forall|i: int| 0 <= i < (a + b).len() implies in_header(#[trigger] (a + b)[i]) by {
        if i < a.len() {
            assert((a + b)[i] == a[i]);
        } else {
            assert((a + b)[i] == b[i - a.len()]);
        }
    }
}

/// A header of words is a line of cookies as it stands.
proof fn lemma_header_is_its_line(h: Seq<char>)
    requires
        all_in_header(h),
        h.len() > 0,
        is_word_char(h[0]),
        is_word_char(h.last()),
    ensures
        cookie_line(h) == h,
{
    reveal_strlit("cookie:");
    let lower = crate::text::ascii_lowercase(h);
    let label = "cookie:"@;
    lemma_nothing_to_trim(h, Edge::Space);
    assert(!crate::text::contains_text(lower, label)) by {
        assert forall|i: int| !crate::text::occurs_at(lower, label, i) by {
            if crate::text::occurs_at(lower, label, i) {
                assert(lower.subrange(i, i + label.len())[6] == ':');
                assert(lower[i + 6] == crate::text::ascii_lower(h[i + 6]));
                assert(in_header(h[i + 6]));
            }
        }
    }
    crate::text::lemma_first_index(h, '\n');
    assert(!h.contains('\n'));
    assert(crate::text::before(h, '\n') =~= h);
    lemma_nothing_to_trim(h, Edge::ShellQuote);
}

/// What stands before a semicolon is a piece of its own.
proof fn lemma_piece_split_off(a: Seq<char>, rest: Seq<char>)
    requires
        !a.contains(';'),
    ensures
        crate::text::split_on(a + seq![';'] + rest, ';') == seq![a] + crate::text::split_on(
            rest,
            ';',
        ),
{
    let s = a + seq![';'] + rest;
    crate::text::lemma_first_index(s, ';');
    assert(s[a.len() as int] == ';');
    assert(forall|i: int| 0 <= i < a.len() ==> s[i] == a[i]);
    assert(crate::text::before(s, ';') =~= a);
    assert(crate::text::behind(s, ';') =~= rest);
}

proof fn lemma_pair_is_one_piece(name: Seq<char>, value: Seq<char>)
    requires
        is_word(name),
        is_word(value),
    ensures
        all_in_header(cookie_pair(name, value)),
        !cookie_pair(name, value).contains(';'),
        !(seq![' '] + cookie_pair(name, value)).contains(';'),
        cookie_pair(name, value).len() > 0,
        cookie_pair(name, value)[0] == name[0],
        cookie_pair(name, value).last() == value.last(),
{
    reveal_strlit("=");
    let t = cookie_pair(name, value);
    assert forall|i: int| 0 <= i < t.len() implies in_header(#[trigger] t[i]) && t[i] != ';' by {
        if i < name.len() {
            assert(t[i] == name[i]);
        } else if i > name.len() {
            assert(t[i] == value[i - name.len() - 1]);
        }
    }
    let spaced = seq![' '] + t;
    assert forall|i: int| 0 <= i < spaced.len() implies #[trigger] spaced[i] != ';' by {
        if i > 0 {
            assert(spaced[i] == t[i - 1]);
        }
    }
}

proof fn lemma_names_are_words()
    ensures
        is_word("api-platform_ph"@) && "api-platform_ph"@.len() == 15,
        is_word("api-platform_serviceToken"@) && "api-platform_serviceToken"@.len() == 25,
        is_word("api-platform_slh"@) && "api-platform_slh"@.len() == 16,
        is_word("userId"@) && "userId"@.len() == 6,
{
    reveal_strlit("api-platform_ph");
    reveal_strlit("api-platform_serviceToken");
    reveal_strlit("api-platform_slh");
    reveal_strlit("userId");
}

/// The cookies behind the first, which is `first`, as pieces.
spec fn pieces_from(first: Seq<char>, slh: Option<Seq<char>>, user: Seq<char>) -> Seq<Seq<char>> {
    let last = seq![' '] + cookie_pair("userId"@, user);
    match slh {
        Some(v) => seq![first, seq![' '] + cookie_pair("api-platform_slh"@, v), last],
        None => seq![first, last],
    }
}

proof fn lemma_pieces_from(first: Seq<char>, slh: Option<Seq<char>>, user: Seq<char>)
    requires
        !first.contains(';'),
        word_if_any(slh),
        is_word(user),
    ensures
        ({
            let middle = match slh {
                Some(v) => "; "@ + cookie_pair("api-platform_slh"@, v),
                None => ""@,
            };
            crate::text::split_on(first + middle + "; "@ + cookie_pair("userId"@, user), ';')
                == pieces_from(first, slh, user)
        }),
{
    reveal_strlit("; ");
    reveal_strlit("");
    lemma_names_are_words();
    lemma_pair_is_one_piece("userId"@, user);
    let tail = seq![' '] + cookie_pair("userId"@, user);
    assert(crate::text::split_on(tail, ';') == seq![tail]);
    match slh {
        Some(v) => {
            lemma_pair_is_one_piece("api-platform_slh"@, v);
            let middle = seq![' '] + cookie_pair("api-platform_slh"@, v);
            lemma_piece_split_off(middle, tail);
            let rest = middle + seq![';'] + tail;
            lemma_piece_split_off(first, rest);
            assert(first + ("; "@ + cookie_pair("api-platform_slh"@, v)) + "; "@ + cookie_pair(
                "userId"@,
                user,
            ) =~= first + seq![';'] + rest);
            assert(seq![first] + (seq![middle] + seq![tail]) =~= pieces_from(first, slh, user));
        },
        None => {
            lemma_piece_split_off(first, tail);
            assert(first + ""@ + "; "@ + cookie_pair("userId"@, user) =~= first + seq![';'] + tail);
            assert(seq![first] + seq![tail] =~= pieces_from(first, slh, user));
        },
    }
}

/// A header whose cookies are words, by name, is what it is made into.
pub proof fn header_of_words_stays_as_it_is(
    ph: Option<Seq<char>>,
    token: Seq<char>,
    slh: Option<Seq<char>>,
    user: Seq<char>,
)
    requires
        word_if_any(ph),
        is_word(token),
        word_if_any(slh),
        is_word(user),
    ensures
        console_header(cookie_header(ph, token, slh, user)) == Some(
            cookie_header(ph, token, slh, user),
        ),
{
    reveal_strlit("; ");
    reveal_strlit("");
    lemma_names_are_words();
    let h = cookie_header(ph, token, slh, user);
    let sep = "; "@;
    let front = match ph {
        Some(v) => cookie_pair("api-platform_ph"@, v) + sep,
        None => ""@,
    };
    let main = cookie_pair("api-platform_serviceToken"@, token);
    let middle = match slh {
        Some(v) => sep + cookie_pair("api-platform_slh"@, v),
        None => ""@,
    };
    let last = cookie_pair("userId"@, user);
    assert(h == front + main + middle + sep + last);
    lemma_pair_is_one_piece("api-platform_serviceToken"@, token);
    lemma_pair_is_one_piece("userId"@, user);
    lemma_pair_is_read("api-platform_serviceToken"@, token);
    lemma_pair_is_read("userId"@, user);
    assert(all_in_header(sep));
    if let Some(v) = slh {
        lemma_pair_is_one_piece("api-platform_slh"@, v);
        lemma_pair_is_read("api-platform_slh"@, v);
        lemma_both_in_header(sep, cookie_pair("api-platform_slh"@, v));
    }
    if let Some(v) = ph {
        lemma_pair_is_one_piece("api-platform_ph"@, v);
        lemma_pair_is_read("api-platform_ph"@, v);
        lemma_both_in_header(cookie_pair("api-platform_ph"@, v), sep);
    }
    lemma_both_in_header(front, main);
    lemma_both_in_header(front + main, middle);
    lemma_both_in_header(front + main + middle, sep);
    lemma_both_in_header(front + main + middle + sep, last);
    assert(h.last() == last.last());
    assert(is_word_char(h[0])) by {
        match ph {
            Some(v) => {
                assert(h[0] == cookie_pair("api-platform_ph"@, v)[0]);
            },
            None => {
                assert(h[0] == main[0]);
            },
        }
    }
    lemma_header_is_its_line(h);
    let pieces = crate::text::split_on(h, ';');
    match ph {
        Some(v) => {
            let pair = cookie_pair("api-platform_ph"@, v);
            let spaced = seq![' '] + main;
            let rest = spaced + middle + sep + last;
            lemma_pieces_from(spaced, slh, user);
            lemma_piece_split_off(pair, rest);
            assert(h =~= pair + seq![';'] + rest);
            let tail = pieces_from(spaced, slh, user);
            assert(pieces == seq![pair] + tail);
            lemma_values(seq![pair] + tail, ph, token, slh, user);
        },
        None => {
            lemma_pieces_from(main, slh, user);
            assert(h =~= main + middle + sep + last);
            lemma_values(pieces, ph, token, slh, user);
        },
    }
}

/// What is read in the pieces of a header of words.
proof fn lemma_values(
    pieces: Seq<Seq<char>>,
    ph: Option<Seq<char>>,
    token: Seq<char>,
    slh: Option<Seq<char>>,
    user: Seq<char>,
)
    requires
        word_if_any(ph),
        is_word(token),
        word_if_any(slh),
        is_word(user),
        ({
            let main = cookie_pair("api-platform_serviceToken"@, token);
            pieces == match ph {
                Some(v) => seq![cookie_pair("api-platform_ph"@, v)] + pieces_from(
                    seq![' '] + main,
                    slh,
                    user,
                ),
                None => pieces_from(main, slh, user),
            }
        }),
    ensures
        cookie_value(pieces, "api-platform_ph"@) == ph,
        cookie_value(pieces, "api-platform_serviceToken"@) == Some(token),
        cookie_value(pieces, "api-platform_slh"@) == slh,
        cookie_value(pieces, "userId"@) == Some(user),
{
    lemma_names_are_words();
    lemma_pair_is_read("api-platform_serviceToken"@, token);
    lemma_pair_is_read("userId"@, user);
    if let Some(v) = slh {
        lemma_pair_is_read("api-platform_slh"@, v);
    }
    if let Some(v) = ph {
        lemma_pair_is_read("api-platform_ph"@, v);
    }
    reveal_with_fuel(cookie_value, 5);
    let a = pieces.drop_last();
    assert(cookie(pieces.last()) == Some(("userId"@, user)));
    if slh is Some {
        assert(cookie(a.last()) == Some(("api-platform_slh"@, slh->Some_0)));
        let b = a.drop_last();
        assert(cookie(b.last()) == Some(("api-platform_serviceToken"@, token)));
        let c = b.drop_last();
        if ph is Some {
            assert(cookie(c.last()) == Some(("api-platform_ph"@, ph->Some_0)));
            assert(c.drop_last().len() == 0);
        } else {
            assert(c.len() == 0);
        }
    } else {
        assert(cookie(a.last()) == Some(("api-platform_serviceToken"@, token)));
        let c = a.drop_last();
        if ph is Some {
            assert(cookie(c.last()) == Some(("api-platform_ph"@, ph->Some_0)));
            assert(c.drop_last().len() == 0);
        } else {
            assert(c.len() == 0);
        }
    }
}

/// What was made into a header stays as it is when it is made into one again,
/// where the values of its cookies are words.
pub proof fn header_is_made_once(raw: Seq<char>)
    requires
        console_header(raw) is Some,
        ({
            let pieces = crate::text::split_on(cookie_line(raw), ';');
            &&& word_if_any(cookie_value(pieces, "api-platform_ph"@))
            &&& word_if_any(cookie_value(pieces, "api-platform_serviceToken"@))
            &&& word_if_any(cookie_value(pieces, "api-platform_slh"@))
            &&& word_if_any(cookie_value(pieces, "userId"@))
        }),
    ensures
        console_header(console_header(raw)->Some_0) == console_header(raw),
{
    let pieces = crate::text::split_on(cookie_line(raw), ';');
    header_of_words_stays_as_it_is(
        cookie_value(pieces, "api-platform_ph"@),
        cookie_value(pieces, "api-platform_serviceToken"@)->Some_0,
        cookie_value(pieces, "api-platform_slh"@),
        cookie_value(pieces, "userId"@)->Some_0,
    );
}

/// No cookie is taken without a value.
pub proof fn cookies_have_values(pieces: Seq<Seq<char>>, name: Seq<char>)
    ensures
        cookie_value(pieces, name) is Some ==> cookie_value(pieces, name)->Some_0.len() > 0,
    decreases pieces.len(),
{
    if pieces.len() > 0 {
        cookies_have_values(pieces.drop_last(), name);
    }
}

fn find_cookie(pieces: &Vec<String>, name: &str) -> (r: Option<String>)
    ensures
        crate::text::opt_text(r) == cookie_value(crate::text::texts(pieces@), name@),
{
    let ghost all = crate::text::texts(pieces@);
    let mut i: usize = pieces.len();
    assert(all.take(i as int) =~= all);
    while i > 0
        invariant
            i <= pieces@.len(),
            all == crate::text::texts(pieces@),
            cookie_value(all, name@) == cookie_value(all.take(i as int), name@),
        decreases i,
    {
        i -= 1;
        assert(all.take(i + 1).drop_last() =~= all.take(i as int));
        assert(all.take(i + 1).last() == pieces@[i as int]@);
        let t = trim(pieces[i].as_str(), Edge::Space);
        match split_once(t.as_str(), '=') {
            Some((before, behind)) => {
                let found = trim(before.as_str(), Edge::Space);
                let value = trim(trim(behind.as_str(), Edge::Space).as_str(), Edge::Quote);
                if same_text(found.as_str(), name) && !value.as_str().is_empty() {
                    return Some(value);
                }
            },
            None => {},
        }
    }
    None
}

impl UsageFetcher {
    /// The line of cookies in a pasted text.
    fn find_cookie_line(raw: &str) -> (r: String)
        ensures
            r@ == cookie_line(raw@),
    {
        let text = trim(raw, Edge::Space);
        let chars = crate::text::chars_of(text.as_str());
        let lower = crate::text::chars_of(to_ascii_lowercase(text.as_str()).as_str());
        let label = crate::text::chars_of("cookie:");
        let rest = match find_text(&lower, &label) {
            Some(at) => {
                let end: usize = lower.len();
                assert(at + label@.len() <= end);
                let start: usize = at + label.len();
                proof {
                    let i = first_place(lower@, label@);
                    assert(crate::text::occurs_at(lower@, label@, at as int));
                    assert(i == at);
                    assert(chars@.subrange(start as int, chars@.len() as int) =~= text@.skip(
                        start as int,
                    ));
                }
                string_of(&chars, start, chars.len())
            },
            None => text,
        };
        let line = take_before(rest.as_str(), '\n');
        trim(trim(line.as_str(), Edge::Space).as_str(), Edge::ShellQuote)
    }

    /// The header that the console wants, from a pasted text. There is none
    /// without the token and the user.
    pub fn normalize_mimo_cookie_header(raw: &str) -> (r: Option<String>)
        ensures
            crate::text::opt_text(r) == console_header(raw@),
    {
        let line = UsageFetcher::find_cookie_line(raw);
        let pieces = split(line.as_str(), ';');
        let token = match find_cookie(&pieces, "api-platform_serviceToken") {
            Some(v) => v,
            None => {
                return None;
            },
        };
        let user = match find_cookie(&pieces, "userId") {
            Some(v) => v,
            None => {
                return None;
            },
        };
        let front = match find_cookie(&pieces, "api-platform_ph") {
            Some(v) => joined(joined3("api-platform_ph", "=", v.as_str()).as_str(), "; "),
            None => "".to_owned(),
        };
        let middle = match find_cookie(&pieces, "api-platform_slh") {
            Some(v) => joined("; ", joined3("api-platform_slh", "=", v.as_str()).as_str()),
            None => "".to_owned(),
        };
        let main = joined3("api-platform_serviceToken", "=", token.as_str());
        let last = joined3("userId", "=", user.as_str());
        let start = joined3(front.as_str(), main.as_str(), middle.as_str());
        Some(joined3(start.as_str(), "; ", last.as_str()))
    }

    /// The header that the console wants, or the error where the pasted text
    /// lacks the token or the user.
    pub fn console_cookie(raw: &str) -> (r: Result<String, String>)
        ensures
            match r {
                Ok(header) => console_header(raw@) == Some(header@),
                Err(e) => console_header(raw@) is None
                    && e@ == "MiMo Cookie 缺少 api-platform_serviceToken 或 userId"@,
            },
    {
        match UsageFetcher::normalize_mimo_cookie_header(raw) {
            Some(header) => Ok(header),
            None => Err("MiMo Cookie 缺少 api-platform_serviceToken 或 userId".to_owned()),
        }
    }
}

// ------------------------------------------------------------------------- laws

/// Credits are shown just where the document says that there are some, or that
/// there is no limit to them; the balance is that of the document.
pub proof fn credits_are_shown_where_there_are_some(
    doc: JsonTree,
    credits: JsonTree,
    readings: Map<Seq<char>, Reading>,
    now: Timestamp,
)
    ensures
        doc.get("credits"@) == Some(credits) ==> (shown_usage(doc, readings, now).has_credits <==> (
        credits.get("has_credits"@) == Some(JsonTree::Bool(true)) || credits.get("unlimited"@)
            == Some(JsonTree::Bool(true)))),
        doc.get("credits"@) == Some(credits) ==> shown_usage(doc, readings, now).credits_balance
            == crate::figures::read_figure(credits.get("balance"@), readings),
        doc.get("credits"@) is None ==> !shown_usage(doc, readings, now).has_credits && shown_usage(
            doc,
            readings,
            now,
        ).credits_balance is None,
{
}

/// The plan that is shown is the one that the document names.
pub proof fn plan_is_the_one_that_is_named(
    doc: JsonTree,
    plan: Seq<char>,
    readings: Map<Seq<char>, Reading>,
    now: Timestamp,
)
    ensures
        doc.get("plan_type"@) == Some(JsonTree::Text(plan)) ==> shown_usage(
            doc,
            readings,
            now,
        ).plan_type == plan,
        doc.text_at("plan_type"@) is None ==> shown_usage(doc, readings, now).plan_type
            == "unknown"@,
        shown_usage(doc, readings, now).is_valid_for_cli,
{
}

/// The five hours are shown as the primary window of the document says, and the
/// week as the secondary one says: what is used of each, and when it is reset.
pub proof fn windows_are_shown_as_the_document_says(
    doc: JsonTree,
    limits: JsonTree,
    readings: Map<Seq<char>, Reading>,
    now: Timestamp,
)
    requires
        doc.get("rate_limit"@) == Some(limits),
    ensures
        ({
            let u = shown_usage(doc, readings, now);
            &&& u.five_hour == shown_window(
                limits.get("primary_window"@),
                "5H 限额"@,
                readings,
                now,
            )
            &&& u.weekly == shown_window(
                limits.get("secondary_window"@),
                "周限额"@,
                readings,
                now,
            )
            &&& u.five_hour_left == 100 - u.five_hour.used
            &&& u.weekly_left == 100 - u.weekly.used
        }),
{
}

/// Without a word on limits nothing is used of either window.
pub proof fn nothing_is_used_where_nothing_is_said(
    doc: JsonTree,
    readings: Map<Seq<char>, Reading>,
    now: Timestamp,
)
    requires
        doc.get("rate_limit"@) is None,
    ensures
        ({
            let u = shown_usage(doc, readings, now);
            &&& u.five_hour.used == 0 && u.five_hour_left == 100
            &&& u.weekly.used == 0 && u.weekly_left == 100
            &&& u.five_hour.reset_at is None && u.weekly.reset_at is None
            &&& u.five_hour.reset == "未知"@ && u.weekly.reset == "未知"@
        }),
{
}

/// What is shown of a window is what it says: what is used, to the nearest
/// percent, and the second of its reset. It is called by its length where it
/// gives one.
pub proof fn window_is_shown_as_it_says(
    w: JsonTree,
    default_label: Seq<char>,
    readings: Map<Seq<char>, Reading>,
    now: Timestamp,
)
    ensures
        ({
            let shown = shown_window(Some(w), default_label, readings, now);
            let used = crate::figures::reading(w.get("used_percent"@), readings);
            let reset = crate::figures::reading(w.get("reset_at"@), readings);
            let length = crate::figures::reading(w.get("limit_window_seconds"@), readings);
            &&& used is Some ==> shown.used == used->Some_0.rounded
            &&& used is None ==> shown.used == 0
            &&& reset is Some ==> shown.reset_at == Some(reset->Some_0.whole)
            &&& reset is None ==> shown.reset_at is None
            &&& length is Some && length->Some_0.whole > 0 ==> shown.label == window_label(
                length->Some_0.whole as int,
            )
            &&& length is None || length->Some_0.whole <= 0 ==> shown.label == default_label
        }),
        shown_window(None, default_label, readings, now).label == default_label,
        shown_window(None, default_label, readings, now).used == 0,
{
}

/// The wait until the reset of a window is the one until the second that it
/// names, or else the wait that it gives itself, under either of two names; it
/// is unknown where it gives neither.
pub proof fn wait_is_the_one_that_a_window_gives(
    w: JsonTree,
    default_label: Seq<char>,
    readings: Map<Seq<char>, Reading>,
    now: Timestamp,
)
    ensures
        ({
            let shown = shown_window(Some(w), default_label, readings, now).reset;
            let reset = crate::figures::reading(w.get("reset_at"@), readings);
            let after = crate::figures::reading(w.get("reset_after_seconds"@), readings);
            let short = crate::figures::reading(w.get("reset_after_sec"@), readings);
            let given = w.get("reset_after_seconds"@) is Some;
            &&& reset is Some && reset->Some_0.whole > 0 ==> shown == reset_wait(
                reset->Some_0.whole as int,
                now,
            )
            &&& reset is Some && reset->Some_0.whole <= 0 ==> shown == "未知"@
            &&& reset is None && after is Some && after->Some_0.whole > 0 ==> shown == wait_text(
                after->Some_0.whole as int,
            )
            &&& reset is None && !given && short is Some && short->Some_0.whole > 0 ==> shown
                == wait_text(short->Some_0.whole as int)
            &&& reset is None && after is None && short is None ==> shown == "未知"@
        }),
        shown_window(None, default_label, readings, now).reset == "未知"@,
{
}

/// A window is called by its length: by five hours, a day or a week, each with
/// some slack, or else by its hours, a part of an hour counting as one.
pub proof fn windows_are_called_by_their_seconds(seconds: int, hours: int)
    ensures
        seconds <= 18_600 ==> window_label(seconds) == "5H 限额"@,
        18_600 < seconds <= 87_000 ==> window_label(seconds) == "24H 限额"@,
        87_000 < seconds <= 608_400 ==> window_label(seconds) == "周限额"@,
        608_400 < seconds && 3_600 * (hours - 1) < seconds <= 3_600 * hours ==> window_label(
            seconds,
        ) == crate::text::decimal(hours) + "H 限额"@,
{
}

/// The wait until a reset is told in hours and minutes, in minutes alone where
/// it is less than an hour, and in days where it is more than 24 whole hours;
/// one of less than a minute is as good as over.
pub proof fn waits_are_told_in_hours_and_minutes(hours: int, minutes: int, seconds: int)
    requires
        0 <= minutes < 60,
        0 <= seconds < 60,
    ensures
        ({
            let wait = 3_600 * hours + 60 * minutes + seconds;
            &&& hours < 0 || (hours == 0 && minutes == 0) ==> wait_text(wait) == "即将重置"@
            &&& hours == 0 && minutes > 0 ==> wait_text(wait) == crate::text::decimal(minutes)
                + "分钟后重置"@
            &&& 0 < hours <= 24 ==> wait_text(wait) == crate::text::decimal(hours) + "小时"@
                + crate::text::decimal(minutes) + "分钟后重置"@
            &&& hours > 24 ==> wait_text(wait) == crate::text::decimal(hours / 24) + "天后重置"@
        }),
{
    let wait = 3_600 * hours + 60 * minutes + seconds;
    if hours >= 0 {
        assert(wait / 3_600 == hours);
        assert(wait % 3_600 == 60 * minutes + seconds);
    }
}

/// The wait until a second that can be held is the time from now until then, a
/// part of a second not counting; a reset at 0 is unknown, and one that cannot
/// be held is as good as over.
pub proof fn wait_is_the_time_until_then(reset_at: int, now: Timestamp, seconds: int)
    requires
        now.nanos < 1_000_000_000,
    ensures
        reset_at == 0 ==> reset_wait(reset_at, now) == "未知"@,
        reset_at != 0 && -8_334_601_228_800 <= reset_at <= 8_210_266_876_799 && 0 <= seconds && ((
        now.nanos == 0 && seconds == reset_at - now.secs) || (now.nanos > 0 && seconds == reset_at
            - now.secs - 1)) ==> reset_wait(reset_at, now) == wait_text(seconds),
        reset_at != 0 && reset_at <= now.secs ==> reset_wait(reset_at, now) == "即将重置"@,
        reset_at > 8_210_266_876_799 ==> reset_wait(reset_at, now) == "即将重置"@,
{
    let nanos = (reset_at - now.secs) * 1_000_000_000 - now.nanos;
    if reset_at - now.secs - seconds == 1 && now.nanos > 0 && 0 <= seconds {
        assert(nanos == seconds * 1_000_000_000 + (1_000_000_000 - now.nanos));
        assert(nanos / 1_000_000_000 == seconds);
    }
    if reset_at - now.secs - seconds == 0 && now.nanos == 0 && 0 <= seconds {
        assert(nanos == seconds * 1_000_000_000);
        assert(nanos / 1_000_000_000 == seconds);
    }
    if reset_at <= now.secs {
        assert(nanos <= 0);
    }
}

/// An answer that is no denial is read for the usage, whatever was done before.
/// The first denial leads to a refresh where that is allowed and there is
/// something to refresh with, and any other denial is looked into.
pub proof fn first_denial_leads_to_a_refresh(q: UsageQuery, status: u16)
    ensures
        ({
            let step = next_step(q, UsageEvent::Answered(status));
            &&& status != 401 && status != 403 ==> step == Step::ReadUsage
            &&& (status == 401 || status == 403) && q.stage == UsageStage::Asked
                && q.allow_local_refresh && q.refresh_token is Some ==> step is Refresh
                && stage_after(q.stage, step) == UsageStage::Refreshing
            &&& (status == 401 || status == 403) && (q.stage != UsageStage::Asked
                || !q.allow_local_refresh || q.refresh_token is None) ==> step == Step::ReadDenial
        }),
{
}

/// Once there is a new token the usage is asked for again. A refresh that failed
/// ends the asking where its message, in lower case, says that the account was
/// logged out or the token is no longer granted, and else the denial is looked
/// into.
pub proof fn refresh_is_followed_by_asking_again(q: UsageQuery, message: String)
    ensures
        next_step(q, UsageEvent::Refreshed) == Step::AskAgain,
        stage_after(q.stage, Step::AskAgain) == UsageStage::AskedAgain,
        ({
            let lower = crate::text::lowercase(message@);
            let step = next_step(q, UsageEvent::RefreshFailed(message));
            let out = crate::text::contains_text(lower, "logged out"@)
                || crate::text::contains_text(lower, "signed in to another account"@)
                || crate::text::contains_text(lower, "invalid_grant"@);
            &&& out ==> step == Step::Fail(
                "ACCOUNT_LOGGED_OUT:您已登出或登录了其他账号，请重新登录"@,
            )
            &&& !out ==> step == Step::ReadDenial
        }),
        stage_after(q.stage, Step::ReadDenial) == q.stage,
        stage_after(q.stage, Step::ReadUsage) == q.stage,
{
}

/// Two refreshes of one account wait for each other, whatever their tokens are;
/// without an account those do whose tokens begin with the same sixteen bytes.
pub proof fn refreshes_of_one_account_share_a_lock(
    account_id: Seq<char>,
    a: Seq<char>,
    b: Seq<char>,
)
    ensures
        lock_of(Some(account_id), a) == account_id,
        encode_utf8(a).len() <= 16 ==> lock_of(None, a) == "rt:"@ + a,
        encode_utf8(a).len() >= 16 && encode_utf8(b).len() >= 16 && encode_utf8(a).take(16)
            == encode_utf8(b).take(16) ==> lock_of(None, a) == lock_of(None, b),
{
    broadcast use vstd::utf8::encode_utf8_decode_utf8;

    assert(encode_utf8(a).len() == 16 ==> encode_utf8(a).take(16) =~= encode_utf8(a));
    assert(encode_utf8(b).len() == 16 ==> encode_utf8(b).take(16) =~= encode_utf8(b));
}

/// An account counts as banned where what is written of it, in lower case,
/// speaks of a deactivation, a ban or a suspension, and a document says so under
/// `detail.code`.
pub proof fn bans_are_told_by_their_words(
    a: Seq<char>,
    b: Seq<char>,
    doc: JsonTree,
    detail: JsonTree,
    code: Seq<char>,
)
    ensures
        banned(a + "deactivated"@ + b),
        banned(a + "banned"@ + b),
        banned(a + "suspended"@ + b),
        banned(a) ==> crate::text::contains_text(a, "deactivated"@) || crate::text::contains_text(
            a,
            "banned"@,
        ) || crate::text::contains_text(a, "suspended"@),
        doc.get("detail"@) == Some(detail) && detail.get("code"@) == Some(JsonTree::Text(code))
            ==> soft_ban(doc) == banned(crate::text::lowercase(code)),
        doc.get("detail"@) is None ==> !soft_ban(doc),
{
    crate::text::parts_of_a_text_are_found(a, "deactivated"@, b);
    crate::text::parts_of_a_text_are_found(a, "banned"@, b);
    crate::text::parts_of_a_text_are_found(a, "suspended"@, b);
}

/// The unit that an answer names is the unit of what remains, and else the one
/// that it names under `quota`; dollars stand in where neither is named.
pub proof fn unit_is_the_one_that_is_named(body: JsonTree, quota: JsonTree, unit: Seq<char>)
    ensures
        body.get("unit"@) == Some(JsonTree::Text(unit)) ==> relay_unit(body) == unit,
        body.text_at("unit"@) is None && body.get("quota"@) == Some(quota) && quota.get("unit"@)
            == Some(JsonTree::Text(unit)) ==> relay_unit(body) == unit,
        body.text_at("unit"@) is None && (body.get("quota"@) is None || body.get(
            "quota"@,
        )->Some_0.text_at("unit"@) is None) ==> relay_unit(body) == "USD"@,
{
}

/// What remains is the first number that is there under `remaining`, under
/// `remaining` in `quota`, and under `balance`, and nothing where none is.
pub proof fn remainder_is_the_first_that_is_named(body: JsonTree)
    ensures
        crate::text::first_to_tell(
            seq![
                body.number_at("remaining"@),
                match body.get("quota"@) {
                    Some(q) => q.number_at("remaining"@),
                    None => None,
                },
                body.number_at("balance"@),
            ],
            relay_remaining(body),
        ),
{
}

/// A key is in use as the answer says, under either of two names, and where it
/// does not say, it is.
pub proof fn key_is_in_use_as_the_answer_says(body: JsonTree, b: bool)
    ensures
        body.get("is_active"@) == Some(JsonTree::Bool(b)) ==> relay_active(body) == b,
        body.flag_at("is_active"@) is None && body.get("isValid"@) == Some(JsonTree::Bool(b))
            ==> relay_active(body) == b,
        body.flag_at("is_active"@) is None && body.flag_at("isValid"@) is None ==> relay_active(
            body,
        ),
{
}

/// A relay is asked at its base address, with one slash before the path however
/// many the address ends with.
pub proof fn slashes_of_the_base_do_not_matter(base: Seq<char>, path: Seq<char>)
    ensures
        relay_url(base.push('/'), path) == relay_url(base, path),
        base.len() == 0 || base.last() != '/' ==> relay_url(base, path) == base + path,
{
    assert(base.push('/').drop_last() =~= base);
}

/// An answer tells something just where there is one, it went well, and its body
/// holds a document; else the reason names the status and the address, with the
/// front of the body, or says that the body cannot be read.
pub proof fn answer_gives_its_document_or_a_reason(
    answer: Answer,
    url: Seq<char>,
    front: Seq<char>,
)
    ensures
        told(None) is None,
        succeeded(answer.status) ==> told(Some(answer)) == answer.document(),
        !succeeded(answer.status) ==> told(Some(answer)) is None,
        no_document(answer, url, front) is None <==> succeeded(answer.status)
            && answer.document() is Some,
        !succeeded(answer.status) && answer.text@.len() <= 200 ==> no_document(answer, url, front)
            == Some(
            "HTTP "@ + crate::text::decimal(answer.status as int) + " @ "@ + url + " → "@
                + answer.text@,
        ),
        !succeeded(answer.status) && answer.text@.len() > 200 ==> no_document(answer, url, front)
            == Some(
            "HTTP "@ + crate::text::decimal(answer.status as int) + " @ "@ + url + " → "@
                + answer.text@.take(200),
        ),
        succeeded(answer.status) && answer.document() is None ==> no_document(answer, url, front)
            == Some(front + answer.unreadable@),
{
}

/// A document gives a limit where it has a soft or a hard one, and what remains
/// where it says so under one of three names.
pub proof fn documents_show_how_a_relay_is_asked(body: JsonTree, quota: JsonTree)
    ensures
        body.get("soft_limit_usd"@) is Some ==> gives_limit(body),
        body.get("hard_limit_usd"@) is Some ==> gives_limit(body),
        body.get("soft_limit_usd"@) is None && body.get("hard_limit_usd"@) is None ==> !gives_limit(
            body,
        ),
        body.get("remaining"@) is Some ==> gives_remaining(body),
        body.get("balance"@) is Some ==> gives_remaining(body),
        body.get("quota"@) == Some(quota) && quota.get("remaining"@) is Some ==> gives_remaining(
            body,
        ),
        body.get("remaining"@) is None && body.get("balance"@) is None && body.get(
            "quota"@,
        ) is None ==> !gives_remaining(body),
        body.get("remaining"@) is None && body.get("balance"@) is None && body.get("quota"@)
            == Some(quota) && quota.get("remaining"@) is None ==> !gives_remaining(body),
{
}

/// How much is used is told by the first limit on tokens that gives a
/// percentage, and where there is none by the first limit that does.
pub proof fn limit_on_tokens_goes_first(q: GlmQuota, body: JsonTree, data: JsonTree, limits: Seq<
    JsonTree,
>, i: int)
    requires
        says_glm(q, body),
        body.get("data"@) == Some(data),
        data.get("limits"@) == Some(JsonTree::Array(limits)),
    ensures
        body.get("code"@) == Some(JsonTree::Int(200)),
        0 <= i < limits.len() && limits[i].get("type"@) == Some(JsonTree::Text("TOKENS_LIMIT"@))
            && limits[i].number_at("percentage"@) is Some && (forall|j: int|
            0 <= j < i ==> (#[trigger] limits[j]).get("type"@) != Some(
                JsonTree::Text("TOKENS_LIMIT"@),
            ) || limits[j].number_at("percentage"@) is None) ==> crate::text::opt_text(
            q.used_percent,
        ) == limits[i].number_at("percentage"@),
        (forall|j: int|
            0 <= j < limits.len() ==> (#[trigger] limits[j]).get("type"@) != Some(
                JsonTree::Text("TOKENS_LIMIT"@),
            )) && 0 <= i < limits.len() && limits[i].number_at("percentage"@) is Some && (forall|
            j: int,
        |
            0 <= j < i ==> (#[trigger] limits[j]).number_at("percentage"@) is None)
            ==> crate::text::opt_text(q.used_percent) == limits[i].number_at("percentage"@),
        (forall|j: int|
            0 <= j < limits.len() ==> (#[trigger] limits[j]).number_at("percentage"@) is None)
            ==> q.used_percent is None,
{
    lemma_first_percentage(limits, true, i);
    lemma_first_percentage(limits, false, i);
}

proof fn lemma_first_percentage(limits: Seq<JsonTree>, tokens_only: bool, i: int)
    ensures
        0 <= i < limits.len() && (!tokens_only || limits[i].text_at("type"@) == Some(
            "TOKENS_LIMIT"@,
        )) && limits[i].number_at("percentage"@) is Some && (forall|j: int|
            0 <= j < i ==> (tokens_only && (#[trigger] limits[j]).text_at("type"@) != Some(
                "TOKENS_LIMIT"@,
            )) || limits[j].number_at("percentage"@) is None) ==> limit_percentage(
            limits,
            tokens_only,
        ) == limits[i].number_at("percentage"@),
        (forall|j: int|
            0 <= j < limits.len() ==> (tokens_only && (#[trigger] limits[j]).text_at("type"@)
                != Some("TOKENS_LIMIT"@)) || limits[j].number_at("percentage"@) is None)
            ==> limit_percentage(limits, tokens_only) is None,
    decreases limits.len(),
{
    if limits.len() > 0 {
        let rest = limits.skip(1);
        lemma_first_percentage(rest, tokens_only, i - 1);
        assert(forall|j: int| 0 <= j < rest.len() ==> #[trigger] rest[j] == limits[j + 1]);
    }
}

/// The quota is reset when the first limit says that gives a reset, in
/// milliseconds, of which a part of a second does not count.
pub proof fn first_reset_counts(q: GlmQuota, body: JsonTree, data: JsonTree, limits: Seq<
    JsonTree,
>, i: int, ms: int)
    requires
        says_glm(q, body),
        body.get("data"@) == Some(data),
        data.get("limits"@) == Some(JsonTree::Array(limits)),
    ensures
        0 <= i < limits.len() && limits[i].get("nextResetTime"@) == Some(JsonTree::Int(ms)) && ms
            >= 0 && (forall|j: int|
            0 <= j < i ==> (#[trigger] limits[j]).int_at("nextResetTime"@) is None)
            ==> q.next_reset_at is Some && 1_000 * q.next_reset_at->Some_0 <= ms < 1_000 * (
        q.next_reset_at->Some_0 + 1),
        0 <= i < limits.len() && limits[i].get("nextResetTime"@) == Some(JsonTree::Int(ms)) && ms
            < 0 && (forall|j: int|
            0 <= j < i ==> (#[trigger] limits[j]).int_at("nextResetTime"@) is None)
            ==> q.next_reset_at is Some && 1_000 * (q.next_reset_at->Some_0 - 1) < ms <= 1_000
            * q.next_reset_at->Some_0,
        (forall|j: int|
            0 <= j < limits.len() ==> (#[trigger] limits[j]).int_at("nextResetTime"@) is None)
            ==> q.next_reset_at is None,
{
    lemma_first_reset(limits, i);
}

proof fn lemma_first_reset(limits: Seq<JsonTree>, i: int)
    ensures
        0 <= i < limits.len() && limits[i].int_at("nextResetTime"@) is Some && (forall|j: int|
            0 <= j < i ==> (#[trigger] limits[j]).int_at("nextResetTime"@) is None) ==> limit_reset(
            limits,
        ) == limits[i].int_at("nextResetTime"@),
        (forall|j: int|
            0 <= j < limits.len() ==> (#[trigger] limits[j]).int_at("nextResetTime"@) is None)
            ==> limit_reset(limits) is None,
    decreases limits.len(),
{
    if limits.len() > 0 {
        let rest = limits.skip(1);
        lemma_first_reset(rest, i - 1);
        assert(forall|j: int| 0 <= j < rest.len() ==> #[trigger] rest[j] == limits[j + 1]);
    }
}

/// The error for an answer whose code is wrong names the code and the message of
/// the answer, or what stands in for one.
pub proof fn error_names_the_code(
    front: Seq<char>,
    body: JsonTree,
    code: int,
    message: Seq<char>,
    default_message: Seq<char>,
)
    ensures
        body.get("code"@) == Some(JsonTree::Int(code)) ==> answer_code(body) == code,
        body.int_at("code"@) is None ==> answer_code(body) == 0,
        body.get("code"@) == Some(JsonTree::Int(code)) && body.get("message"@) == Some(
            JsonTree::Text(message),
        ) ==> code_error(front, body, default_message) == front + crate::text::decimal(code)
            + " msg="@ + message,
        body.get("code"@) == Some(JsonTree::Int(code)) && body.text_at("message"@) is None
            ==> code_error(front, body, default_message) == front + crate::text::decimal(code)
            + " msg="@ + default_message,
{
}

/// The origin of an address is its scheme and its host, with the port where it
/// names one.
pub proof fn origin_is_scheme_host_and_port(
    text: Seq<char>,
    scheme: Seq<char>,
    host: Seq<char>,
    port: u16,
)
    ensures
        address_parts(text) == Some((scheme, Some(host), Some(port))) ==> origin_of(text) == Some(
            scheme + "://"@ + host + (":"@ + crate::text::decimal(port as int)),
        ),
        address_parts(text) == Some((scheme, Some(host), None::<u16>)) ==> origin_of(text) == Some(
            scheme + "://"@ + host,
        ),
        address_parts(text) is None ==> origin_of(text) is None,
        address_parts(text) is Some && address_parts(text)->Some_0.1 is None ==> origin_of(
            text,
        ) is None,
{
    reveal_strlit("");
    assert(scheme + "://"@ + host + ""@ =~= scheme + "://"@ + host);
}

/// What is used of the month is the part that its first item gives, or else the
/// month itself, or else what the item says is used of a limit above 0; without
/// any of these there is an error.
pub proof fn share_of_the_month_is_the_first_that_is_given(
    body: JsonTree,
    data: JsonTree,
    month: JsonTree,
    items: Seq<JsonTree>,
    readings: Map<Seq<char>, Reading>,
)
    requires
        body.get("data"@) == Some(data),
        data.get("monthUsage"@) == Some(month),
        month.get("items"@) == Some(JsonTree::Array(items)),
        items.len() > 0,
    ensures
        month_item(body) == Some(items[0]),
        ({
            let share = month_share(body, items[0], readings);
            let part = crate::figures::read_figure(items[0].get("percent"@), readings);
            let whole = crate::figures::read_figure(month.get("percent"@), readings);
            let limit = crate::figures::reading(items[0].get("limit"@), readings);
            &&& part is Some ==> share == Some(Share::Part(part->Some_0))
            &&& part is None && whole is Some ==> share == Some(Share::Part(whole->Some_0))
            &&& part is None && whole is None && limit is Some && limit->Some_0.positive
                ==> share == Some(
                Share::Ratio {
                    used: crate::figures::read_figure(items[0].get("used"@), readings),
                    limit: crate::figures::read_figure(items[0].get("limit"@), readings)->Some_0,
                },
            )
            &&& part is None && whole is None && (limit is None || !limit->Some_0.positive)
                ==> share is None
            &&& mimo_failure(body, readings) is None <==> share is Some && (body.int_at("code"@)
                is None || body.get("code"@) == Some(JsonTree::Int(0)))
        }),
{
}

/// Without an item of the month nothing can be said of it.
pub proof fn month_without_items_is_an_error(
    body: JsonTree,
    readings: Map<Seq<char>, Reading>,
)
    requires
        body.get("data"@) is None || body.get("data"@)->Some_0.get("monthUsage"@) is None || ({
            let items = body.get("data"@)->Some_0.get("monthUsage"@)->Some_0.items_at("items"@);
            items is None || items->Some_0.len() == 0
        }),
    ensures
        mimo_failure(body, readings) is Some,
        body.int_at("code"@) is None ==> mimo_failure(body, readings) == Some(
            "MiMo usage 响应缺 monthUsage.items"@,
        ),
{
}

/// A period ends a day behind the time that the console gives, blanks around it
/// aside, and no end is known where that cannot be read.
pub proof fn period_ends_a_day_behind(
    detail: JsonTree,
    data: JsonTree,
    value: Seq<char>,
)
    requires
        detail.get("data"@) == Some(data),
        data.get("currentPeriodEnd"@) == Some(JsonTree::Text(value)),
    ensures
        ({
            let time = crate::clock::naive_time(
                crate::text::trimmed(value, Edge::Space),
                "%Y-%m-%d %H:%M:%S"@,
            );
            &&& time is Some ==> period_end_of(Some(detail)) == Some(time->Some_0.secs + 86_400)
            &&& time is None ==> period_end_of(Some(detail)) is None
        }),
        period_end_of(None) is None,
{
}

/// The console tells a login that has run out from a cookie that may not do
/// this, and from any other answer that did not go well.
pub proof fn console_tells_denials_apart(status: u16, url: Seq<char>, body: Seq<char>)
    ensures
        console_error(401, url, body) == Some("MiMo 登录态已失效，请重新登录后复制 Cookie"@),
        console_error(403, url, body) == Some("MiMo Cookie 无效或权限不足"@),
        200 <= status < 300 <==> console_error(status, url, body) is None,
        !(200 <= status < 300) && status != 401 && status != 403 && body.len() <= 200
            ==> console_error(status, url, body) == Some(
            "HTTP "@ + crate::text::decimal(status as int) + " @ "@ + url + " → "@ + body,
        ),
{
}

/// The header holds each cookie under the name by which the console knows it, in
/// a fixed order, and those that may be missing only where they are there.
pub proof fn header_names_each_cookie(
    ph: Seq<char>,
    token: Seq<char>,
    slh: Seq<char>,
    user: Seq<char>,
)
    ensures
        cookie_header(Some(ph), token, Some(slh), user) == "api-platform_ph="@ + ph
            + "; api-platform_serviceToken="@ + token + "; api-platform_slh="@ + slh + "; userId="@
            + user,
        cookie_header(None, token, Some(slh), user) == "api-platform_serviceToken="@ + token
            + "; api-platform_slh="@ + slh + "; userId="@ + user,
        cookie_header(Some(ph), token, None, user) == "api-platform_ph="@ + ph
            + "; api-platform_serviceToken="@ + token + "; userId="@ + user,
        cookie_header(None, token, None, user) == "api-platform_serviceToken="@ + token
            + "; userId="@ + user,
{
    reveal_strlit("");
    reveal_strlit("=");
    reveal_strlit("; ");
    reveal_strlit("api-platform_ph");
    reveal_strlit("api-platform_ph=");
    reveal_strlit("api-platform_serviceToken");
    reveal_strlit("api-platform_serviceToken=");
    reveal_strlit("; api-platform_serviceToken=");
    reveal_strlit("api-platform_slh");
    reveal_strlit("; api-platform_slh=");
    reveal_strlit("userId");
    reveal_strlit("; userId=");
    assert("api-platform_ph"@ + "="@ =~= "api-platform_ph="@);
    assert("api-platform_serviceToken"@ + "="@ =~= "api-platform_serviceToken="@);
    assert("; "@ + "api-platform_serviceToken="@ =~= "; api-platform_serviceToken="@);
    assert("; "@ + ("api-platform_slh"@ + "="@) =~= "; api-platform_slh="@);
    assert("; "@ + ("userId"@ + "="@) =~= "; userId="@);
    assert(cookie_header(Some(ph), token, Some(slh), user) =~= "api-platform_ph="@ + ph
        + "; api-platform_serviceToken="@ + token + "; api-platform_slh="@ + slh + "; userId="@
        + user);
    assert(cookie_header(None, token, Some(slh), user) =~= "api-platform_serviceToken="@ + token
        + "; api-platform_slh="@ + slh + "; userId="@ + user);
    assert(cookie_header(Some(ph), token, None, user) =~= "api-platform_ph="@ + ph
        + "; api-platform_serviceToken="@ + token + "; userId="@ + user);
    assert(cookie_header(None, token, None, user) =~= "api-platform_serviceToken="@ + token
        + "; userId="@ + user);
}

/// A label before the cookies does not count, whatever the case of its letters,
/// nor does what stands on the lines behind.
pub proof fn label_before_the_cookies_does_not_count(
    label: Seq<char>,
    ph: Option<Seq<char>>,
    token: Seq<char>,
    slh: Option<Seq<char>>,
    user: Seq<char>,
    rest: Seq<char>,
)
    requires
        crate::text::ascii_lowercase(label) == "cookie:"@,
        word_if_any(ph),
        is_word(token),
        word_if_any(slh),
        is_word(user),
        rest.len() == 0 || (rest[0] == '\n' && is_word_char(rest.last())),
    ensures
        console_header(label.push(' ') + cookie_header(ph, token, slh, user) + rest) == Some(
            cookie_header(ph, token, slh, user),
        ),
{
    reveal_strlit("cookie:");
    reveal_strlit("; ");
    let h = cookie_header(ph, token, slh, user);
    header_of_words_stays_as_it_is(ph, token, slh, user);
    lemma_header_of_words(ph, token, slh, user);
    lemma_header_is_its_line(h);
    let raw = label.push(' ') + h + rest;
    let lower = crate::text::ascii_lowercase(raw);
    assert(label.len() == 7) by {
        assert(crate::text::ascii_lowercase(label).len() == label.len());
    }
    assert(crate::text::ascii_lowercase(label)[0] == crate::text::ascii_lower(label[0]));
    assert(raw[0] == label[0]);
    assert(raw.last() == if rest.len() > 0 {
        rest.last()
    } else {
        h.last()
    });
    lemma_nothing_to_trim(raw, Edge::Space);
    assert(lower.subrange(0, 7) =~= crate::text::ascii_lowercase(label));
    assert(crate::text::occurs_at(lower, "cookie:"@, 0));
    assert(first_place(lower, "cookie:"@) == 0) by {
        let i = first_place(lower, "cookie:"@);
        assert(crate::text::occurs_at(lower, "cookie:"@, i) && forall|j: int|
            0 <= j < i ==> !#[trigger] crate::text::occurs_at(lower, "cookie:"@, j));
    }
    let text = behind_label(raw);
    let spaced = seq![' '] + h;
    assert(text =~= spaced + rest);
    crate::text::lemma_first_index(text, '\n');
    assert(forall|i: int| 0 <= i < h.len() ==> in_header(#[trigger] h[i]));
    assert(forall|i: int| 0 <= i < spaced.len() ==> #[trigger] text[i] == spaced[i]);
    assert forall|i: int| 0 <= i < spaced.len() implies #[trigger] spaced[i] != '\n' by {
        if i > 0 {
            assert(spaced[i] == h[i - 1]);
        }
    }
    if rest.len() > 0 {
        assert(text[spaced.len() as int] == '\n');
        assert(text.contains('\n'));
    } else {
        assert(!text.contains('\n'));
    }
    assert(crate::text::before(text, '\n') =~= spaced);
    assert(spaced[0] == ' ');
    assert(spaced.skip(1) =~= h);
    lemma_nothing_to_trim(h, Edge::Space);
    assert(crate::text::trim_front(spaced, Edge::Space) == crate::text::trim_front(h, Edge::Space));
    lemma_nothing_to_trim(h, Edge::ShellQuote);
    assert(cookie_line(raw) == h);
}

proof fn lemma_header_of_words(
    ph: Option<Seq<char>>,
    token: Seq<char>,
    slh: Option<Seq<char>>,
    user: Seq<char>,
)
    requires
        word_if_any(ph),
        is_word(token),
        word_if_any(slh),
        is_word(user),
    ensures
        ({
            let h = cookie_header(ph, token, slh, user);
            h.len() > 0 && all_in_header(h) && is_word_char(h[0]) && is_word_char(h.last())
        }),
{
    reveal_strlit("; ");
    reveal_strlit("");
    lemma_names_are_words();
    let sep = "; "@;
    let front = match ph {
        Some(v) => cookie_pair("api-platform_ph"@, v) + sep,
        None => ""@,
    };
    let main = cookie_pair("api-platform_serviceToken"@, token);
    let middle = match slh {
        Some(v) => sep + cookie_pair("api-platform_slh"@, v),
        None => ""@,
    };
    let last = cookie_pair("userId"@, user);
    lemma_pair_is_one_piece("api-platform_serviceToken"@, token);
    lemma_pair_is_one_piece("userId"@, user);
    assert(all_in_header(sep));
    if let Some(v) = slh {
        lemma_pair_is_one_piece("api-platform_slh"@, v);
        lemma_both_in_header(sep, cookie_pair("api-platform_slh"@, v));
    }
    if let Some(v) = ph {
        lemma_pair_is_one_piece("api-platform_ph"@, v);
        lemma_both_in_header(cookie_pair("api-platform_ph"@, v), sep);
        assert((front + main)[0] == cookie_pair("api-platform_ph"@, v)[0]);
    } else {
        assert((front + main)[0] == main[0]);
    }
    lemma_both_in_header(front, main);
    lemma_both_in_header(front + main, middle);
    lemma_both_in_header(front + main + middle, sep);
    lemma_both_in_header(front + main + middle + sep, last);
    let h = front + main + middle + sep + last;
    assert(h[0] == (front + main)[0]);
    assert(h.last() == last.last());
}

/// Of several cookies with one name the last counts that has a value, and there
/// is no header where the token or the user is missing.
pub proof fn last_cookie_with_a_name_counts(
    pieces: Seq<Seq<char>>,
    k: int,
    name: Seq<char>,
    value: Seq<char>,
    raw: Seq<char>,
)
    ensures
        is_word(name) && is_word(value) && 0 <= k < pieces.len() && pieces[k] == name + "="@ + value
            && (forall|j: int|
            k < j < pieces.len() ==> cookie(#[trigger] pieces[j]) is None || cookie(
                pieces[j],
            )->Some_0.0 != name || cookie(pieces[j])->Some_0.1.len() == 0) ==> cookie_value(
            pieces,
            name,
        ) == Some(value),
        (forall|j: int|
            0 <= j < pieces.len() ==> cookie(#[trigger] pieces[j]) is None || cookie(
                pieces[j],
            )->Some_0.0 != name || cookie(pieces[j])->Some_0.1.len() == 0) ==> cookie_value(
            pieces,
            name,
        ) is None,
        cookie_value(
            crate::text::split_on(cookie_line(raw), ';'),
            "api-platform_serviceToken"@,
        ) is None ==> console_header(raw) is None,
        cookie_value(crate::text::split_on(cookie_line(raw), ';'), "userId"@) is None
            ==> console_header(raw) is None,
    decreases pieces.len(),
{
    if is_word(name) && is_word(value) {
        lemma_pair_is_read(name, value);
    }
    if pieces.len() > 0 {
        let front = pieces.drop_last();
        last_cookie_with_a_name_counts(front, k, name, value, raw);
        assert(forall|j: int| 0 <= j < front.len() ==> #[trigger] front[j] == pieces[j]);
    }
}

/// A cookie is a name and a value on the two sides of the first equals sign,
/// without the blanks around either and the quotes around the value.
pub proof fn cookie_is_parted_at_the_equals_sign(name: Seq<char>, value: Seq<char>)
    requires
        is_word(name),
        is_word(value),
    ensures
        cookie(name + "="@ + value) == Some((name, value)),
        cookie(seq![' '] + (name + "="@ + value)) == Some((name, value)),
        cookie(name + "="@ + (seq!['"'] + value).push('"')) == Some((name, value)),
        cookie(name) is None,
{
    lemma_pair_is_read(name, value);
    lemma_nothing_to_trim(name, Edge::Space);
    reveal_strlit("=");
    let quoted = (seq!['"'] + value).push('"');
    let t = name + "="@ + quoted;
    assert(t[0] == name[0] && t.last() == '"');
    lemma_nothing_to_trim(t, Edge::Space);
    crate::text::lemma_first_index(t, '=');
    assert(t[name.len() as int] == '=');
    assert(forall|i: int| 0 <= i < name.len() ==> t[i] == name[i]);
    assert(crate::text::before(t, '=') =~= name);
    assert(crate::text::behind(t, '=') =~= quoted);
    lemma_nothing_to_trim(quoted, Edge::Space);
    lemma_quotes_go(value, '"', Edge::Quote);
}

/// What stands in quotes, and neither starts nor ends with one, is left when the
/// quotes are taken off.
proof fn lemma_quotes_go(s: Seq<char>, quote: char, e: Edge)
    requires
        e.takes(quote),
        s.len() > 0,
        !e.takes(s[0]) && !e.takes(s.last()),
    ensures
        crate::text::trimmed((seq![quote] + s).push(quote), e) == s,
{
    let quoted = (seq![quote] + s).push(quote);
    let rest = s.push(quote);
    assert(quoted[0] == quote);
    assert(quoted.skip(1) =~= rest);
    assert(rest[0] == s[0]);
    assert(crate::text::trim_front(quoted, e) == crate::text::trim_front(rest, e));
    assert(crate::text::trim_front(rest, e) == rest);
    assert(rest.drop_last() =~= s);
    assert(crate::text::trim_back(rest, e) == crate::text::trim_back(s, e));
}

/// Quotes of a command line around the cookies do not count.
pub proof fn quotes_around_the_cookies_do_not_count(
    quote: char,
    ph: Option<Seq<char>>,
    token: Seq<char>,
    slh: Option<Seq<char>>,
    user: Seq<char>,
)
    requires
        quote == '\'' || quote == '"' || quote == '`',
        word_if_any(ph),
        is_word(token),
        word_if_any(slh),
        is_word(user),
    ensures
        console_header((seq![quote] + cookie_header(ph, token, slh, user)).push(quote)) == Some(
            cookie_header(ph, token, slh, user),
        ),
{
    reveal_strlit("cookie:");
    let h = cookie_header(ph, token, slh, user);
    let raw = (seq![quote] + h).push(quote);
    header_of_words_stays_as_it_is(ph, token, slh, user);
    lemma_header_of_words(ph, token, slh, user);
    lemma_header_is_its_line(h);
    lemma_nothing_to_trim(raw, Edge::Space);
    let lower = crate::text::ascii_lowercase(raw);
    let label = "cookie:"@;
    assert forall|i: int| 0 <= i < raw.len() implies #[trigger] raw[i] != ':' && raw[i] != '\n' by {
        if 0 < i < raw.len() - 1 {
            assert(raw[i] == h[i - 1]);
            assert(in_header(h[i - 1]));
        }
    }
    assert(!crate::text::contains_text(lower, label)) by {
        assert forall|i: int| !crate::text::occurs_at(lower, label, i) by {
            if crate::text::occurs_at(lower, label, i) {
                assert(lower.subrange(i, i + label.len())[6] == ':');
                assert(lower[i + 6] == crate::text::ascii_lower(raw[i + 6]));
            }
        }
    }
    crate::text::lemma_first_index(raw, '\n');
    assert(!raw.contains('\n'));
    assert(crate::text::before(raw, '\n') =~= raw);
    lemma_quotes_go(h, quote, Edge::ShellQuote);
    assert(cookie_line(raw) == h);
}

/// What is shown of the usage is told field by field.
pub proof fn usage_is_told_field_by_field(u: UsageDisplay)
    ensures
        u@.plan_type == u.plan_type@,
        u@.five_hour.used == u.five_hour_used && u@.weekly.used == u.weekly_used,
        u@.five_hour_left == u.five_hour_left && u@.weekly_left == u.weekly_left,
        u@.five_hour.label == u.five_hour_label@ && u@.weekly.label == u.weekly_label@,
        u@.five_hour.reset == u.five_hour_reset@ && u@.weekly.reset == u.weekly_reset@,
        u@.five_hour.reset_at == u.five_hour_reset_at && u@.weekly.reset_at == u.weekly_reset_at,
        u.credits_balance is Some ==> u@.credits_balance == Some(u.credits_balance->Some_0@),
        u.credits_balance is None ==> u@.credits_balance is None,
        u@.has_credits == u.has_credits && u@.is_valid_for_cli == u.is_valid_for_cli,
{
}

/// A document stays within the bounds of its numbers just where neither window
/// is too long to be counted in hours, nor too little used to leave a rest.
pub proof fn document_is_in_bounds_where_its_windows_are(
    doc: JsonTree,
    limits: JsonTree,
    readings: Map<Seq<char>, Reading>,
    w: JsonTree,
)
    ensures
        doc.get("rate_limit"@) is None ==> usage_fits(doc, readings),
        doc.get("rate_limit"@) == Some(limits) ==> usage_fits(doc, readings) == (window_fits(
            limits.get("primary_window"@),
            readings,
        ) && window_fits(limits.get("secondary_window"@), readings)),
        window_fits(None, readings),
        ({
            let length = crate::figures::reading(w.get("limit_window_seconds"@), readings);
            let used = crate::figures::reading(w.get("used_percent"@), readings);
            window_fits(Some(w), readings) <==> (length is None || length->Some_0.whole
                <= 9_223_372_036_854_775_807 - 3_599) && (used is None || used->Some_0.rounded
                >= 100 - 2_147_483_647)
        }),
{
}

/// An answer comes to a question that was asked, and word of a refresh to one
/// that is under way. A lock can be made of an account, and of a refresh token
/// that is short or can be cut behind its sixteenth byte.
pub proof fn answers_come_to_questions(
    status: u16,
    message: String,
    q: UsageQuery,
)
    ensures
        can_happen(UsageStage::Asked, UsageEvent::Answered(status)),
        can_happen(UsageStage::AskedAgain, UsageEvent::Answered(status)),
        !can_happen(UsageStage::Refreshing, UsageEvent::Answered(status)),
        can_happen(UsageStage::Refreshing, UsageEvent::Refreshed),
        can_happen(UsageStage::Refreshing, UsageEvent::RefreshFailed(message)),
        !can_happen(UsageStage::Asked, UsageEvent::Refreshed),
        !can_happen(UsageStage::AskedAgain, UsageEvent::RefreshFailed(message)),
        q.account_id is Some || q.refresh_token is None ==> lock_fits(q),
        q.account_id is None && q.refresh_token is Some ==> (lock_fits(q) <==> encode_utf8(
            q.refresh_token->Some_0@,
        ).len() <= 16 || vstd::utf8::is_char_boundary(
            encode_utf8(q.refresh_token->Some_0@),
            16,
        )),
{
}

/// What is to be done, and what is used of the month, are told as they are.
pub proof fn actions_and_shares_are_told_as_they_are(
    text: String,
    used: Option<String>,
)
    ensures
        (UsageAction::Refresh { lock_key: text })@ == (Step::Refresh { lock_key: text@ }),
        UsageAction::AskAgain@ == Step::AskAgain,
        UsageAction::ReadDenial@ == Step::ReadDenial,
        UsageAction::ReadUsage@ == Step::ReadUsage,
        UsageAction::Fail(text)@ == Step::Fail(text@),
        MimoShare::Part(text)@ == Share::Part(text@),
        used is Some ==> (MimoShare::Ratio { used, limit: text })@ == (Share::Ratio {
            used: Some(used->Some_0@),
            limit: text@,
        }),
        used is None ==> (MimoShare::Ratio { used, limit: text })@ == (Share::Ratio {
            used: None,
            limit: text@,
        }),
{
}

} // verus!
