//! Talking to the server: which address to use, what to ask, and what the
//! answers mean.
use crate::account::CachedQuota;
use crate::answer::{is_success, succeeded, Answer};
use crate::clock::{nanos_since, start_of_time, LONGEST};
use crate::json::{
    flag_value, insert_value, int_value, null_value, object_value, text_value, value_bytes, Json,
    JsonTree,
};
use crate::text::{joined, joined3, same_text, trim, trim_end, write_hex, Edge};
use vstd::prelude::*;
use vstd::utf8::encode_utf8;

verus! {

// ------------------------------------------------------------------- addresses

/// An address without the slashes at its end.
pub fn trim_url(base: &str) -> (r: String)
    ensures
        r@ == crate::text::trim_back(base@, Edge::Slash),
{
    trim_end(base, Edge::Slash)
}

/// A trimmed address ends in no slash, and trimming it again changes nothing.
pub proof fn trimmed_address_stays_as_it_is(base: Seq<char>)
    ensures
        ({
            let t = crate::text::trim_back(base, Edge::Slash);
            &&& t.len() == 0 || t.last() != '/'
            &&& crate::text::trim_back(t, Edge::Slash) == t
        }),
{
    crate::text::lemma_trim_back_stops(base, Edge::Slash);
}

/// Bytes that stand for themselves in an address.
pub open spec fn unreserved(b: u8) -> bool {
    ||| 48 <= b <= 57
    ||| 65 <= b <= 90
    ||| 97 <= b <= 122
    ||| b == 45
    ||| b == 46
    ||| b == 95
    ||| b == 126
}

/// How a byte is written in an address.
pub open spec fn escaped(b: u8) -> Seq<char> {
    if unreserved(b) {
        seq![b as char]
    } else {
        seq!['%'] + crate::text::hex(b as nat, 2, true)
    }
}

/// How bytes are written in an address.
pub open spec fn percent_encoded(bytes: Seq<u8>) -> Seq<char>
    decreases bytes.len(),
{
    if bytes.len() == 0 {
        Seq::empty()
    } else {
        percent_encoded(bytes.drop_last()) + escaped(bytes.last())
    }
}

/// Writes a text so that it can stand in an address.
pub fn url_encode(s: &str) -> (r: String)
    ensures
        r@ == percent_encoded(encode_utf8(s@)),
{
    let bytes = s.as_bytes();
    let ghost all = encode_utf8(s@);
    let mut out = String::new();
    assert(all.take(0) =~= Seq::<u8>::empty());
    for i in 0..bytes.len()
        invariant
            bytes@ == all,
            out@ == percent_encoded(all.take(i as int)),
    {
        assert(all.take(i + 1).drop_last() =~= all.take(i as int));
        let b: u8 = bytes[i];
        if (48 <= b && b <= 57) || (65 <= b && b <= 90) || (97 <= b && b <= 122) || b == 45 || b
            == 46 || b == 95 || b == 126 {
            let ghost before = out@;
            out.push(b as char);
            assert(out@ =~= before + seq![b as char]);
        } else {
            let ghost before = out@;
            out.push('%');
            out.append(write_hex(b as u64, 2, true).as_str());
            assert(out@ =~= before + escaped(b));
        }
    }
    assert(all.take(all.len() as int) =~= all);
    out
}

/// The number that a hexadecimal digit stands for.
pub open spec fn hex_value(c: char) -> int {
    if c <= '9' {
        c as int - 48
    } else {
        c as int - 55
    }
}

/// The bytes that are written in an address.
pub open spec fn percent_decoded(s: Seq<char>) -> Seq<u8>
    decreases s.len(),
{
    if s.len() == 0 {
        Seq::empty()
    } else if s[0] == '%' && s.len() >= 3 {
        seq![(hex_value(s[1]) * 16 + hex_value(s[2])) as u8] + percent_decoded(s.skip(3))
    } else {
        seq![s[0] as u8] + percent_decoded(s.skip(1))
    }
}

proof fn lemma_escaped_reads_back(b: u8, rest: Seq<char>)
    ensures
        percent_decoded(escaped(b) + rest) == seq![b] + percent_decoded(rest),
{
    let s = escaped(b) + rest;
    if unreserved(b) {
        assert(s[0] == b as char);
        assert(s.skip(1) =~= rest);
    } else {
        let text = crate::text::hex(b as nat, 2, true);
        reveal_with_fuel(crate::text::hex, 3);
        assert(text =~= seq![
            crate::text::hex_digit(b as int / 16, true),
            crate::text::hex_digit(b as int % 16, true),
        ]);
        assert(s[0] == '%' && s[1] == text[0] && s[2] == text[1]);
        assert(s.skip(3) =~= rest);
    }
}

proof fn lemma_decoded_behind(bytes: Seq<u8>, rest: Seq<char>)
    ensures
        percent_decoded(percent_encoded(bytes) + rest) == bytes + percent_decoded(rest),
    decreases bytes.len(),
{
    if bytes.len() == 0 {
        assert(percent_encoded(bytes) + rest =~= rest);
        assert(bytes + percent_decoded(rest) =~= percent_decoded(rest));
    } else {
        let front = bytes.drop_last();
        let b = bytes.last();
        lemma_decoded_behind(front, escaped(b) + rest);
        lemma_escaped_reads_back(b, rest);
        assert(percent_encoded(bytes) + rest =~= percent_encoded(front) + (escaped(b) + rest));
        assert(bytes + percent_decoded(rest) =~= front + (seq![b] + percent_decoded(rest)));
    }
}

/// What is written in an address can be read back.
pub proof fn encoding_loses_nothing(bytes: Seq<u8>)
    ensures
        percent_decoded(percent_encoded(bytes)) == bytes,
{
    lemma_decoded_behind(bytes, Seq::empty());
    assert(percent_encoded(bytes) + Seq::<char>::empty() =~= percent_encoded(bytes));
    assert(bytes + Seq::<u8>::empty() =~= bytes);
}

/// What is written in an address holds no character that means something
/// there, but for the mark before two hexadecimal digits.
pub proof fn encoding_is_safe_in_an_address(bytes: Seq<u8>)
    ensures
        forall|i: int|
            0 <= i < percent_encoded(bytes).len() ==> {
                let c = #[trigger] percent_encoded(bytes)[i];
                c == '%' || (c < '\u{80}' && unreserved(c as u8))
            },
    decreases bytes.len(),
{
    if bytes.len() > 0 {
        encoding_is_safe_in_an_address(bytes.drop_last());
        let front = percent_encoded(bytes.drop_last());
        let back = escaped(bytes.last());
        let all = percent_encoded(bytes);
        reveal_with_fuel(crate::text::hex, 3);
        assert forall|i: int| 0 <= i < all.len() implies {
            let c = #[trigger] all[i];
            c == '%' || (c < '\u{80}' && unreserved(c as u8))
        } by {
            if i < front.len() {
                assert(all[i] == front[i]);
            } else {
                assert(all[i] == back[i - front.len()]);
            }
        }
    }
}

// --------------------------------------------------------------- address in use

/// How long an address that answered is used without asking again: 300
/// seconds, in nanoseconds.
pub const CACHE_TTL: u128 = 300_000_000_000;

/// The address that answered last, and when. Times are in nanoseconds since the
/// cache was made.
pub struct UrlCache {
    origin: std::time::Instant,
    entry: Option<(String, u128)>,
}

impl UrlCache {
    /// The address that answered last, and when.
    pub closed spec fn held(self) -> Option<(Seq<char>, u128)> {
        match self.entry {
            Some(e) => Some((e.0@, e.1)),
            None => None,
        }
    }

    /// When the cache was made, which all times are counted from.
    pub closed spec fn since(self) -> std::time::Instant {
        self.origin
    }

    /// An empty cache.
    pub fn new() -> (r: UrlCache)
        ensures
            r.held() is None,
    {
        UrlCache { origin: start_of_time(), entry: None }
    }

    fn now(&self) -> (r: u128)
        ensures
            r <= LONGEST,
    {
        nanos_since(&self.origin)
    }
}

/// The address that is used without asking: the one that answered last, where
/// that is not too long ago.
pub open spec fn usable(held: Option<(Seq<char>, u128)>, now: u128) -> Option<Seq<char>> {
    match held {
        Some((url, at)) => if now - at < CACHE_TTL {
            Some(url)
        } else {
            None
        },
        None => None,
    }
}

/// The address that is used without asking, at a given time.
pub fn cached_url_at(cache: &UrlCache, now: u128) -> (r: Option<String>)
    ensures
        crate::text::opt_text(r) == usable(cache.held(), now),
{
    match &cache.entry {
        Some((url, at)) => if now < *at || now - *at < CACHE_TTL {
            Some(url.clone())
        } else {
            None
        },
        None => None,
    }
}

/// The address that is used without asking.
pub fn cached_url(cache: &UrlCache) -> (r: Option<String>)
    ensures
        exists|now: u128| crate::text::opt_text(r) == #[trigger] usable(cache.held(), now),
{
    let now: u128 = cache.now();
    cached_url_at(cache, now)
}

/// Keeps an address that answered at a given time.
pub fn set_cached_url_at(cache: &mut UrlCache, url: &str, now: u128)
    ensures
        final(cache).held() == Some((url@, now)),
        final(cache).since() == old(cache).since(),
{
    cache.entry = Some((url.to_owned(), now));
}

/// Keeps an address that answered just now.
pub fn set_cached_url(cache: &mut UrlCache, url: &str)
    ensures
        exists|now: u128| final(cache).held() == #[trigger] entry_of(url@, now),
        final(cache).since() == old(cache).since(),
{
    let now: u128 = cache.now();
    set_cached_url_at(cache, url, now);
    assert(cache.held() == entry_of(url@, now));
}

pub open spec fn entry_of(url: Seq<char>, at: u128) -> Option<(Seq<char>, u128)> {
    Some((url, at))
}

/// Forgets the address that answered last.
pub fn invalidate_cached_url(cache: &mut UrlCache)
    ensures
        final(cache).held() is None,
        final(cache).since() == old(cache).since(),
{
    cache.entry = None;
}

/// An address is used without asking until its time is over, and not after
/// that.
pub proof fn kept_address_is_used_until_its_time_is_over(url: Seq<char>, at: u128, now: u128)
    ensures
        now - at < CACHE_TTL ==> usable(entry_of(url, at), now) == Some(url),
        now - at >= CACHE_TTL ==> usable(entry_of(url, at), now) is None,
{
}

// ---------------------------------------------------------- choosing an address

/// One of the two addresses.
#[derive(Clone, Copy, Debug, PartialEq, Eq, Structural)]
pub enum Side {
    Primary,
    Fallback,
}

/// What to do to find an address.
#[derive(Clone, Debug)]
pub enum Choice {
    /// There is none to be found.
    Fail(String),
    /// Use this one.
    Use(String),
    /// Ask those that there are, both at once.
    Ask { primary: Option<String>, fallback: Option<String> },
}

/// What a `Choice` says.
pub ghost enum Way {
    Fail(Seq<char>),
    Use(Seq<char>),
    Ask { primary: Option<Seq<char>>, fallback: Option<Seq<char>> },
}

impl View for Choice {
    type V = Way;

    open spec fn view(&self) -> Way {
        match *self {
            Choice::Fail(e) => Way::Fail(e@),
            Choice::Use(u) => Way::Use(u@),
            Choice::Ask { primary, fallback } => Way::Ask {
                primary: crate::text::opt_text(primary),
                fallback: crate::text::opt_text(fallback),
            },
        }
    }
}

/// An address, trimmed, unless nothing is left of it.
pub open spec fn configured(url: Seq<char>) -> Option<Seq<char>> {
    let t = crate::text::trimmed(url, Edge::Space);
    if t.len() > 0 {
        Some(t)
    } else {
        None
    }
}

/// What to do to find an address, given the one that is used without asking.
/// That one counts only where it is still configured.
pub open spec fn way(primary: Seq<char>, fallback: Seq<char>, cached: Option<Seq<char>>) -> Way {
    let p = crate::text::trimmed(primary, Edge::Space);
    let f = crate::text::trimmed(fallback, Edge::Space);
    if p.len() == 0 && f.len() == 0 {
        Way::Fail("未配置 Server 地址"@)
    } else if cached == Some(p) || cached == Some(f) {
        Way::Use(cached->Some_0)
    } else {
        Way::Ask { primary: configured(primary), fallback: configured(fallback) }
    }
}

/// What to do to find an address.
pub fn choose_base_url(primary: &str, fallback: &str, cached: Option<&str>) -> (r: Choice)
    ensures
        r@ == way(primary@, fallback@, crate::text::opt_str(cached)),
{
    let p = trim(primary, Edge::Space);
    let f = trim(fallback, Edge::Space);
    if p.as_str().is_empty() && f.as_str().is_empty() {
        return Choice::Fail("未配置 Server 地址".to_owned());
    }
    match cached {
        Some(c) => {
            if same_text(c, p.as_str()) || same_text(c, f.as_str()) {
                return Choice::Use(c.to_owned());
            }
        },
        None => {},
    }
    let primary = if p.as_str().is_empty() {
        None
    } else {
        Some(p)
    };
    let fallback = if f.as_str().is_empty() {
        None
    } else {
        Some(f)
    };
    Choice::Ask { primary, fallback }
}

/// Which of two addresses that were asked at once is used: the one that
/// answered first, where it answered well, or else the other, where that did.
pub fn winner(first: Side, first_ok: bool, second_ok: bool) -> (r: Option<Side>)
    ensures
        r == if first_ok {
            Some(first)
        } else if second_ok {
            Some(
                match first {
                    Side::Primary => Side::Fallback,
                    Side::Fallback => Side::Primary,
                },
            )
        } else {
            None
        },
{
    if first_ok {
        Some(first)
    } else if second_ok {
        match first {
            Side::Primary => Some(Side::Fallback),
            Side::Fallback => Some(Side::Primary),
        }
    } else {
        None
    }
}

/// The address on a side.
pub open spec fn on_side(
    primary: Option<Seq<char>>,
    fallback: Option<Seq<char>>,
    side: Side,
) -> Option<Seq<char>> {
    match side {
        Side::Primary => primary,
        Side::Fallback => fallback,
    }
}

/// The error where no address answered.
pub open spec fn unreachable_error(primary: Option<Seq<char>>, fallback: Option<Seq<char>>) -> Seq<
    char,
> {
    match (primary, fallback) {
        (None, Some(f)) => "Server 不可达（fallback="@ + f + "）"@,
        (Some(p), None) => "Server 不可达（primary="@ + p + "）"@,
        (Some(p), Some(f)) => "Server 不可达（primary="@ + p + ", fallback="@ + f + "）"@,
        (None, None) => "未配置 Server 地址"@,
    }
}

/// What came of asking: the address on the side that is used, which must be one
/// that was asked, or an error.
pub fn chosen_url(primary: &Option<String>, fallback: &Option<String>, used: Option<Side>) -> (r:
    Result<String, String>)
    requires
        used is Some ==> on_side(
            crate::text::opt_text(*primary),
            crate::text::opt_text(*fallback),
            used->Some_0,
        ) is Some,
    ensures
        match r {
            Ok(url) => used is Some && on_side(
                crate::text::opt_text(*primary),
                crate::text::opt_text(*fallback),
                used->Some_0,
            ) == Some(url@),
            Err(e) => used is None && e@ == unreachable_error(
                crate::text::opt_text(*primary),
                crate::text::opt_text(*fallback),
            ),
        },
{
    match used {
        Some(Side::Primary) => match primary {
            Some(p) => Ok(p.clone()),
            None => Err(String::new()),
        },
        Some(Side::Fallback) => match fallback {
            Some(f) => Ok(f.clone()),
            None => Err(String::new()),
        },
        None => match (primary, fallback) {
            (None, Some(f)) => Err(joined3("Server 不可达（fallback=", f.as_str(), "）")),
            (Some(p), None) => Err(joined3("Server 不可达（primary=", p.as_str(), "）")),
            (Some(p), Some(f)) => {
                let front = joined3("Server 不可达（primary=", p.as_str(), ", fallback=");
                Err(joined3(front.as_str(), f.as_str(), "）"))
            },
            (None, None) => Err("未配置 Server 地址".to_owned()),
        },
    }
}

/// Settles what came of asking, at a given time: an address that is used is
/// kept from then on, and where there is none, what was kept stays.
pub fn settle_at(
    cache: &mut UrlCache,
    primary: &Option<String>,
    fallback: &Option<String>,
    used: Option<Side>,
    now: u128,
) -> (r: Result<String, String>)
    requires
        used is Some ==> on_side(
            crate::text::opt_text(*primary),
            crate::text::opt_text(*fallback),
            used->Some_0,
        ) is Some,
    ensures
        final(cache).since() == old(cache).since(),
        match r {
            Ok(url) => used is Some && on_side(
                crate::text::opt_text(*primary),
                crate::text::opt_text(*fallback),
                used->Some_0,
            ) == Some(url@) && final(cache).held() == entry_of(url@, now),
            Err(e) => used is None && e@ == unreachable_error(
                crate::text::opt_text(*primary),
                crate::text::opt_text(*fallback),
            ) && final(cache).held() == old(cache).held(),
        },
{
    match chosen_url(primary, fallback, used) {
        Ok(url) => {
            set_cached_url_at(cache, url.as_str(), now);
            Ok(url)
        },
        Err(e) => Err(e),
    }
}

/// Settles what came of asking just now.
pub fn settle(
    cache: &mut UrlCache,
    primary: &Option<String>,
    fallback: &Option<String>,
    used: Option<Side>,
) -> (r: Result<String, String>)
    requires
        used is Some ==> on_side(
            crate::text::opt_text(*primary),
            crate::text::opt_text(*fallback),
            used->Some_0,
        ) is Some,
    ensures
        final(cache).since() == old(cache).since(),
        match r {
            Ok(url) => used is Some && on_side(
                crate::text::opt_text(*primary),
                crate::text::opt_text(*fallback),
                used->Some_0,
            ) == Some(url@) && exists|now: u128|
                now <= LONGEST && final(cache).held() == #[trigger] entry_of(url@, now),
            Err(e) => used is None && e@ == unreachable_error(
                crate::text::opt_text(*primary),
                crate::text::opt_text(*fallback),
            ) && final(cache).held() == old(cache).held(),
        },
{
    let now: u128 = cache.now();
    settle_at(cache, primary, fallback, used, now)
}

/// An address that was found by asking is used without asking until its time is
/// over, as long as the addresses stay configured; then both are asked again.
pub proof fn found_address_is_used_until_its_time_is_over(
    primary: Seq<char>,
    fallback: Seq<char>,
    used: Side,
    url: Seq<char>,
    now: u128,
    later: u128,
)
    requires
        on_side(configured(primary), configured(fallback), used) == Some(url),
    ensures
        later - now < CACHE_TTL ==> way(primary, fallback, usable(entry_of(url, now), later))
            == Way::Use(url),
        later - now >= CACHE_TTL ==> way(primary, fallback, usable(entry_of(url, now), later)) == (
        Way::Ask { primary: configured(primary), fallback: configured(fallback) }),
{
}

/// No address is used or asked but one that is configured, whatever was kept.
pub proof fn only_configured_addresses_are_used(
    primary: Seq<char>,
    fallback: Seq<char>,
    cached: Option<Seq<char>>,
)
    ensures
        match way(primary, fallback, cached) {
            Way::Use(u) => u == crate::text::trimmed(primary, Edge::Space) || u
                == crate::text::trimmed(fallback, Edge::Space),
            Way::Ask { primary: p, fallback: f } => p == configured(primary) && f == configured(
                fallback,
            ) && (p is Some || f is Some),
            Way::Fail(_) => configured(primary) is None && configured(fallback) is None,
        },
{
}

// -------------------------------------------------------------------- requests

#[derive(Clone, Copy, Debug, PartialEq, Eq, Structural)]
pub enum Method {
    Get,
    Post,
    Delete,
}

/// The header that carries the secret.
pub const AUTH_HEADER: &'static str = "X-Auth-Token";

pub const DEFAULT_TIMEOUT_SECS: u64 = 10;

pub const PROBE_TIMEOUT_SECS: u64 = 2;

/// How long a request may take that makes the server ask elsewhere.
pub const REFRESH_TIMEOUT_SECS: u64 = 45;

pub const UPLOAD_TIMEOUT_SECS: u64 = 60;

/// What to send to the server.
#[derive(Clone, Debug)]
pub struct Request {
    pub method: Method,
    pub url: String,
    pub secret: Option<String>,
    pub content_type: Option<String>,
    pub body: Option<Vec<u8>>,
    pub timeout_secs: u64,
    /// What an error starts with where nothing could be sent.
    pub failure: String,
}

/// What a `Request` says.
pub ghost struct Plan {
    pub method: Method,
    pub url: Seq<char>,
    pub secret: Option<Seq<char>>,
    pub content_type: Option<Seq<char>>,
    pub body: Option<Seq<u8>>,
    pub timeout_secs: u64,
    pub failure: Seq<char>,
}

impl View for Request {
    type V = Plan;

    open spec fn view(&self) -> Plan {
        Plan {
            method: self.method,
            url: self.url@,
            secret: crate::text::opt_text(self.secret),
            content_type: crate::text::opt_text(self.content_type),
            body: match self.body {
                Some(b) => Some(b@),
                None => None,
            },
            timeout_secs: self.timeout_secs,
            failure: self.failure@,
        }
    }
}

/// A path behind the address of the server.
pub open spec fn at(base: Seq<char>, path: Seq<char>) -> Seq<char> {
    crate::text::trim_back(base, Edge::Slash) + path
}

/// A plain request with the secret.
pub open spec fn asking(
    method: Method,
    url: Seq<char>,
    secret: Seq<char>,
    failure: Seq<char>,
) -> Plan {
    Plan {
        method,
        url,
        secret: Some(secret),
        content_type: None,
        body: None,
        timeout_secs: DEFAULT_TIMEOUT_SECS,
        failure,
    }
}

/// A request with the secret and a body.
pub open spec fn sending(
    url: Seq<char>,
    secret: Seq<char>,
    content_type: Seq<char>,
    body: Seq<u8>,
    timeout_secs: u64,
    failure: Seq<char>,
) -> Plan {
    Plan {
        method: Method::Post,
        url,
        secret: Some(secret),
        content_type: Some(content_type),
        body: Some(body),
        timeout_secs,
        failure,
    }
}

fn ask(method: Method, base: &str, path: &str, secret: &str, failure: &str) -> (r: Request)
    ensures
        r@ == asking(method, at(base@, path@), secret@, failure@),
{
    Request {
        method,
        url: joined(trim_url(base).as_str(), path),
        secret: Some(secret.to_owned()),
        content_type: None,
        body: None,
        timeout_secs: DEFAULT_TIMEOUT_SECS,
        failure: failure.to_owned(),
    }
}

fn send_json(base: &str, path: &str, secret: &str, body: &serde_json::Value, failure: &str) -> (r:
    Request)
    ensures
        r@ == sending(
            at(base@, path@),
            secret@,
            "application/json"@,
            crate::json::json_bytes(crate::json::value_tree(*body)),
            DEFAULT_TIMEOUT_SECS,
            failure@,
        ),
{
    let bytes = match value_bytes(body) {
        Some(b) => b,
        None => Vec::new(),
    };
    Request {
        method: Method::Post,
        url: joined(trim_url(base).as_str(), path),
        secret: Some(secret.to_owned()),
        content_type: Some("application/json".to_owned()),
        body: Some(bytes),
        timeout_secs: DEFAULT_TIMEOUT_SECS,
        failure: failure.to_owned(),
    }
}

/// Asks whether a server is there, for a short time.
pub fn probe_request(url: &str) -> (r: Request)
    ensures
        r@ == (Plan {
            secret: None,
            timeout_secs: PROBE_TIMEOUT_SECS,
            ..asking(Method::Get, at(url@, "/health"@), ""@, "连接 Server 失败: "@)
        }),
{
    let plain = health_request(url);
    Request { timeout_secs: PROBE_TIMEOUT_SECS, ..plain }
}

/// Asks the server how it is. This takes no secret.
pub fn health_request(base_url: &str) -> (r: Request)
    ensures
        r@ == (Plan {
            secret: None,
            ..asking(Method::Get, at(base_url@, "/health"@), ""@, "连接 Server 失败: "@)
        }),
{
    let plain = ask(Method::Get, base_url, "/health", "", "连接 Server 失败: ");
    Request { secret: None, ..plain }
}

/// Asks for the accounts to see whether the secret is right.
pub fn test_auth_request(base_url: &str, secret: &str) -> (r: Request)
    ensures
        r@ == asking(Method::Get, at(base_url@, "/accounts"@), secret@, "连接失败: "@),
{
    ask(Method::Get, base_url, "/accounts", secret, "连接失败: ")
}

/// Asks for the accounts.
pub fn list_accounts_request(base_url: &str, secret: &str) -> (r: Request)
    ensures
        r@ == asking(Method::Get, at(base_url@, "/accounts"@), secret@, "请求失败: "@),
{
    ask(Method::Get, base_url, "/accounts", secret, "请求失败: ")
}

/// Hands over an account, written as JSON.
pub fn upsert_account_request(base_url: &str, secret: &str, payload: Vec<u8>) -> (r: Request)
    ensures
        r@ == sending(
            at(base_url@, "/accounts"@),
            secret@,
            "application/json"@,
            payload@,
            REFRESH_TIMEOUT_SECS,
            "POST 失败: "@,
        ),
{
    let plain = ask(Method::Post, base_url, "/accounts", secret, "POST 失败: ");
    Request {
        content_type: Some("application/json".to_owned()),
        body: Some(payload),
        timeout_secs: REFRESH_TIMEOUT_SECS,
        ..plain
    }
}

/// Asks to delete an account.
pub fn delete_account_request(base_url: &str, secret: &str, id: &str) -> (r: Request)
    ensures
        r@ == asking(
            Method::Delete,
            at(base_url@, "/accounts/"@ + id@),
            secret@,
            "DELETE 失败: "@,
        ),
{
    let path = joined("/accounts/", id);
    ask(Method::Delete, base_url, path.as_str(), secret, "DELETE 失败: ")
}

/// Asks for the quotas of all accounts.
pub fn fetch_all_quota_request(base_url: &str, secret: &str) -> (r: Request)
    ensures
        r@ == asking(Method::Get, at(base_url@, "/quotas"@), secret@, "GET /quotas 失败: "@),
{
    ask(Method::Get, base_url, "/quotas", secret, "GET /quotas 失败: ")
}

/// Asks which account is in use.
pub fn get_current_request(base_url: &str, secret: &str) -> (r: Request)
    ensures
        r@ == asking(Method::Get, at(base_url@, "/current"@), secret@, "GET /current 失败: "@),
{
    ask(Method::Get, base_url, "/current", secret, "GET /current 失败: ")
}

/// A text, or nothing.
pub open spec fn text_or_null(text: Option<Seq<char>>) -> JsonTree {
    match text {
        Some(t) => JsonTree::Text(t),
        None => JsonTree::Null,
    }
}

/// What is sent to ask for another account.
pub open spec fn switch_body(from: Option<Seq<char>>, reason: Seq<char>) -> JsonTree {
    let a = crate::json::with_member(Seq::empty(), "from"@, text_or_null(from));
    JsonTree::Object(crate::json::with_member(a, "reason"@, JsonTree::Text(reason)))
}

/// Asks the server to switch to another account.
pub fn request_switch_request(base_url: &str, secret: &str, from: Option<&str>, reason: &str) -> (r:
    Request)
    ensures
        r@ == sending(
            at(base_url@, "/switch"@),
            secret@,
            "application/json"@,
            crate::json::json_bytes(switch_body(crate::text::opt_str(from), reason@)),
            DEFAULT_TIMEOUT_SECS,
            "POST /switch 失败: "@,
        ),
{
    let mut body = object_value();
    let given = match from {
        Some(f) => text_value(f),
        None => null_value(),
    };
    insert_value(&mut body, "from", given);
    insert_value(&mut body, "reason", text_value(reason));
    send_json(base_url, "/switch", secret, &body, "POST /switch 失败: ")
}

/// Asks for the names of the skills.
pub fn list_remote_skills_request(base_url: &str, secret: &str) -> (r: Request)
    ensures
        r@ == asking(Method::Get, at(base_url@, "/skills"@), secret@, "GET /skills 失败: "@),
{
    ask(Method::Get, base_url, "/skills", secret, "GET /skills 失败: ")
}

/// Hands over a skill, packed.
pub fn upload_skill_request(base_url: &str, secret: &str, name: &str, zip_bytes: Vec<u8>) -> (r:
    Request)
    ensures
        r@ == sending(
            at(base_url@, "/skills/upload?name="@ + percent_encoded(encode_utf8(name@))),
            secret@,
            "application/zip"@,
            zip_bytes@,
            UPLOAD_TIMEOUT_SECS,
            "POST /skills/upload 失败: "@,
        ),
{
    let path = joined("/skills/upload?name=", url_encode(name).as_str());
    let plain = ask(Method::Post, base_url, path.as_str(), secret, "POST /skills/upload 失败: ");
    Request {
        content_type: Some("application/zip".to_owned()),
        body: Some(zip_bytes),
        timeout_secs: UPLOAD_TIMEOUT_SECS,
        ..plain
    }
}

/// Asks the server to refresh the quota of an account.
pub fn refresh_account_quota_request(base_url: &str, secret: &str, id: &str) -> (r: Request)
    ensures
        r@ == (Plan {
            timeout_secs: REFRESH_TIMEOUT_SECS,
            ..asking(
                Method::Post,
                at(base_url@, "/accounts/"@ + id@ + "/refresh"@),
                secret@,
                "POST /accounts/"@ + id@ + "/refresh 失败: "@,
            )
        }),
{
    let path = joined3("/accounts/", id, "/refresh");
    let failure = joined3("POST /accounts/", id, "/refresh 失败: ");
    let plain = ask(Method::Post, base_url, path.as_str(), secret, failure.as_str());
    Request { timeout_secs: REFRESH_TIMEOUT_SECS, ..plain }
}

/// What is sent while this machine keeps the accounts alive.
pub open spec fn heartbeat_body(ttl_secs: int) -> JsonTree {
    JsonTree::Object(
        crate::json::with_member(Seq::empty(), "ttl_secs"@, JsonTree::Int(ttl_secs)),
    )
}

/// Tells the server that this machine keeps the accounts alive.
pub fn send_solo_heartbeat_request(base_url: &str, secret: &str, ttl_secs: i64) -> (r: Request)
    ensures
        r@ == sending(
            at(base_url@, "/solo/heartbeat"@),
            secret@,
            "application/json"@,
            crate::json::json_bytes(heartbeat_body(ttl_secs as int)),
            DEFAULT_TIMEOUT_SECS,
            "心跳失败: "@,
        ),
{
    let mut body = object_value();
    insert_value(&mut body, "ttl_secs", int_value(ttl_secs));
    send_json(base_url, "/solo/heartbeat", secret, &body, "心跳失败: ")
}

/// What is sent when this machine has switched to another account.
pub open spec fn solo_switch_body(new_id: Seq<char>, apply_to_disk: bool) -> JsonTree {
    let a = crate::json::with_member(Seq::empty(), "current"@, JsonTree::Text(new_id));
    JsonTree::Object(
        crate::json::with_member(a, "apply_to_disk"@, JsonTree::Bool(apply_to_disk)),
    )
}

/// Tells the server that this machine has switched to another account, and
/// whether the server is to follow.
pub fn push_solo_switch_request(base_url: &str, secret: &str, new_id: &str, apply_to_disk: bool) -> (r:
    Request)
    ensures
        r@ == sending(
            at(base_url@, "/solo/current"@),
            secret@,
            "application/json"@,
            crate::json::json_bytes(solo_switch_body(new_id@, apply_to_disk)),
            DEFAULT_TIMEOUT_SECS,
            "push /solo/current 失败: "@,
        ),
{
    let mut body = object_value();
    insert_value(&mut body, "current", text_value(new_id));
    insert_value(&mut body, "apply_to_disk", flag_value(apply_to_disk));
    send_json(base_url, "/solo/current", secret, &body, "push /solo/current 失败: ")
}

/// Asks for what an account is logged in with.
pub fn fetch_token_request(base_url: &str, secret: &str, id: &str) -> (r: Request)
    ensures
        r@ == asking(
            Method::Get,
            at(base_url@, "/accounts/"@ + id@ + "/token"@),
            secret@,
            "GET token 失败: "@,
        ),
{
    let path = joined3("/accounts/", id, "/token");
    ask(Method::Get, base_url, path.as_str(), secret, "GET token 失败: ")
}

// --------------------------------------------------------------------- answers

/// What is written for a status: its number and its usual reason.
pub uninterp spec fn status_line(status: u16) -> Seq<char>;

/// Calls `reqwest::StatusCode::from_u16`, and `to_string` on what it gives.
/// There is a result just for numbers of three digits, and it is a function of
/// the number alone.
#[verifier::external_body]
fn write_status(status: u16) -> (r: Option<String>)
    ensures
        r is Some <==> 100 <= status <= 999,
        r is Some ==> r->Some_0@ == status_line(status),
{
    reqwest::StatusCode::from_u16(status).ok().map(|s| s.to_string())
}

pub open spec fn is_status(status: u16) -> bool {
    100 <= status <= 999
}

/// The error for an answer to a request with the secret: the secret was wrong,
/// or something else was.
pub open spec fn answer_error(status: u16, front: Seq<char>) -> Option<Seq<char>> {
    if status == 401 {
        Some("共享密钥不正确"@)
    } else if !succeeded(status) {
        Some(front + status_line(status))
    } else {
        None
    }
}

fn with_status(front: &str, status: u16) -> (r: String)
    requires
        is_status(status),
    ensures
        r@ == front@ + status_line(status),
{
    match write_status(status) {
        Some(text) => joined(front, text.as_str()),
        None => String::new(),
    }
}

/// Whether a server that was asked for a short time is there.
pub fn probe_ok(status: u16) -> (r: bool)
    ensures
        r == succeeded(status),
{
    is_success(status)
}

/// The error for an answer to how the server is.
pub fn health_failure(status: u16) -> (r: Option<String>)
    requires
        is_status(status),
    ensures
        crate::text::opt_text(r) == if succeeded(status) {
            None
        } else {
            Some("Server /health 返回 "@ + status_line(status))
        },
{
    if is_success(status) {
        None
    } else {
        Some(with_status("Server /health 返回 ", status))
    }
}

fn failure_of(status: u16, front: &str) -> (r: Option<String>)
    requires
        is_status(status),
    ensures
        crate::text::opt_text(r) == answer_error(status, front@),
{
    if status == 401 {
        Some("共享密钥不正确".to_owned())
    } else if is_success(status) {
        None
    } else {
        Some(with_status(front, status))
    }
}

/// The error for an answer to whether the secret is right.
pub fn test_auth_failure(status: u16) -> (r: Option<String>)
    requires
        is_status(status),
    ensures
        crate::text::opt_text(r) == answer_error(status, "Server /accounts 返回 "@),
{
    failure_of(status, "Server /accounts 返回 ")
}

/// The error for an answer to a request with the secret.
pub fn answer_failure(status: u16) -> (r: Option<String>)
    requires
        is_status(status),
    ensures
        crate::text::opt_text(r) == answer_error(status, "Server 返回 "@),
{
    failure_of(status, "Server 返回 ")
}

/// The error for an answer to something that was handed over, which shows what
/// the server wrote.
pub fn upload_failure(status: u16, body: &str) -> (r: Option<String>)
    requires
        is_status(status),
    ensures
        crate::text::opt_text(r) == match answer_error(status, "Server 返回 "@) {
            Some(e) => if status == 401 {
                Some(e)
            } else {
                Some(e + ": "@ + body@)
            },
            None => None,
        },
{
    match failure_of(status, "Server 返回 ") {
        Some(e) => if status == 401 {
            Some(e)
        } else {
            Some(joined3(e.as_str(), ": ", body))
        },
        None => None,
    }
}

/// The error for an answer to a request to delete. What is not there counts as
/// deleted.
pub fn delete_failure(status: u16) -> (r: Option<String>)
    requires
        is_status(status),
    ensures
        crate::text::opt_text(r) == if status == 404 {
            None
        } else {
            answer_error(status, "Server 返回 "@)
        },
{
    if status == 404 {
        None
    } else {
        failure_of(status, "Server 返回 ")
    }
}

/// The part of a document under a name, or the error where it is missing.
pub fn document_part(body: &Json, name: &str) -> (r: Result<Json, String>)
    ensures
        match r {
            Ok(part) => body@.get(name@) == Some(part@),
            Err(e) => body@.get(name@) is None && e@ == "响应缺少 "@ + name@ + " 字段"@,
        },
{
    match body.get(name) {
        Some(part) => Ok(part.copy()),
        None => Err(joined3("响应缺少 ", name, " 字段")),
    }
}

/// Why an answer does not give the part under a name, if it does not.
pub open spec fn no_part(answer: Answer, name: Seq<char>) -> Option<Seq<char>> {
    match answer_error(answer.status, "Server 返回 "@) {
        Some(e) => Some(e),
        None => match answer.document() {
            None => Some(answer.undecodable(""@)),
            Some(doc) => if doc.get(name) is None {
                Some("响应缺少 "@ + name + " 字段"@)
            } else {
                None
            },
        },
    }
}

/// The part of an answer under a name: the accounts, the quotas or the skills.
pub fn answer_part(answer: &Answer, name: &str) -> (r: Result<Json, String>)
    requires
        is_status(answer.status),
    ensures
        match r {
            Ok(part) => no_part(*answer, name@) is None && answer.document()->Some_0.get(name@)
                == Some(part@),
            Err(e) => no_part(*answer, name@) == Some(e@),
        },
{
    match answer_failure(answer.status) {
        Some(e) => Err(e),
        None => match answer.read("") {
            Ok(doc) => document_part(&doc, name),
            Err(e) => Err(e),
        },
    }
}

/// What came of refreshing the quota of an account: the usage, or the error
/// that the server gives, whose body is read for that whatever the status.
pub open spec fn refreshed(status: u16, body: JsonTree) -> Result<JsonTree, Seq<char>> {
    if !succeeded(status) {
        Err(crate::text::either(body.text_at("error"@), Some("未知错误"@))->Some_0)
    } else {
        match body.get("usage"@) {
            Some(u) => Ok(u),
            None => Err("响应缺少 usage 字段"@),
        }
    }
}

/// What came of refreshing the quota of an account.
pub fn refreshed_usage(status: u16, body: &Json) -> (r: Result<Json, String>)
    ensures
        match r {
            Ok(usage) => refreshed(status, body@) == Ok::<JsonTree, Seq<char>>(usage@),
            Err(e) => refreshed(status, body@) == Err::<JsonTree, Seq<char>>(e@),
        },
{
    if !is_success(status) {
        return match body.text_under("error") {
            Some(e) => Err(e),
            None => Err("未知错误".to_owned()),
        };
    }
    match body.get("usage") {
        Some(u) => Ok(u.copy()),
        None => Err("响应缺少 usage 字段".to_owned()),
    }
}

/// Why a refreshed quota cannot be had, if it cannot.
pub open spec fn not_refreshed(answer: Answer) -> Option<Seq<char>> {
    if answer.status == 401 {
        Some("共享密钥不正确"@)
    } else {
        match answer.document() {
            None => Some(answer.undecodable("解析刷新响应失败: "@)),
            Some(doc) => match refreshed(answer.status, doc) {
                Ok(_) => None,
                Err(e) => Some(e),
            },
        }
    }
}

/// What the server answered to a request to refresh the quota of an account.
pub fn refresh_answer(answer: &Answer) -> (r: Result<Json, String>)
    ensures
        match r {
            Ok(usage) => not_refreshed(*answer) is None && answer.document() is Some && refreshed(
                answer.status,
                answer.document()->Some_0,
            ) == Ok::<JsonTree, Seq<char>>(usage@),
            Err(e) => not_refreshed(*answer) == Some(e@),
        },
{
    if answer.status == 401 {
        return Err("共享密钥不正确".to_owned());
    }
    match answer.read("解析刷新响应失败: ") {
        Ok(doc) => refreshed_usage(answer.status, &doc),
        Err(e) => Err(e),
    }
}

/// A wrong secret is told apart from every other answer, and an answer that
/// went well is no error.
pub proof fn wrong_secret_is_told_apart(status: u16, front: Seq<char>)
    ensures
        status == 401 ==> answer_error(status, front) == Some("共享密钥不正确"@),
        succeeded(status) <==> answer_error(status, front) is None,
{
}

// ------------------------------------------------------------- what is answered

#[derive(Clone, Debug)]
pub struct RemoteHealth {
    pub mode: String,
    pub version: String,
    pub account_count: usize,
}

/// What an account is logged in with.
#[derive(Clone, Debug)]
pub struct RemoteToken {
    pub auth_json: Json,
    pub refresh_token: Option<String>,
}

/// The quota of an account on the server.
#[derive(Clone, Debug)]
pub struct RemoteQuotaEntry {
    pub id: String,
    pub cached_quota: Option<CachedQuota>,
    pub is_banned: bool,
    pub is_token_invalid: bool,
    pub is_logged_out: bool,
}

/// What came of handing over an account.
#[derive(Clone, Debug)]
pub struct UpsertOutcome {
    pub ok: bool,
    pub id: String,
    pub upserted: String,
    pub quota_refreshed: bool,
    pub quota_error: Option<String>,
}

/// The account that the server uses.
#[derive(Clone, Debug)]
pub struct RemoteCurrent {
    pub current: Option<String>,
    pub name: Option<String>,
    pub cached_quota: Option<CachedQuota>,
}

/// What came of asking for another account.
#[derive(Clone, Debug)]
pub struct RemoteSwitchOutcome {
    pub switched: bool,
    pub stale: bool,
    pub exhausted: bool,
    pub current: Option<String>,
    pub name: Option<String>,
    pub reason: Option<String>,
    pub earliest_reset_at: Option<i64>,
}

// ------------------------------------------------------------------------- laws

/// An address that answered is used without asking for 300 seconds, and where
/// none did, none is.
pub proof fn address_is_kept_for_five_minutes(url: Seq<char>, at: u128, now: u128)
    ensures
        entry_of(url, at) == Some((url, at)),
        now - at < 300_000_000_000 ==> usable(Some((url, at)), now) == Some(url),
        now - at >= 300_000_000_000 ==> usable(Some((url, at)), now) is None,
        usable(None, now) is None,
{
}

/// The address that was kept is used just where it is one of those configured,
/// blanks around them aside. Else those are asked that are not blank, each as
/// what it is, and where both are blank there is nothing to be used or asked.
pub proof fn kept_address_is_used_where_it_is_configured(
    primary: Seq<char>,
    fallback: Seq<char>,
    cached: Option<Seq<char>>,
)
    ensures
        ({
            let p = crate::text::trimmed(primary, Edge::Space);
            let f = crate::text::trimmed(fallback, Edge::Space);
            let w = way(primary, fallback, cached);
            &&& p.len() == 0 && f.len() == 0 ==> w == Way::Fail("未配置 Server 地址"@)
            &&& (p.len() > 0 || f.len() > 0) && cached is Some && (cached->Some_0 == p
                || cached->Some_0 == f) ==> w == Way::Use(cached->Some_0)
            &&& (p.len() > 0 || f.len() > 0) && (cached is None || (cached->Some_0 != p
                && cached->Some_0 != f)) ==> {
                &&& w is Ask
                &&& p.len() > 0 ==> w->primary == Some(p)
                &&& p.len() == 0 ==> w->primary is None
                &&& f.len() > 0 ==> w->fallback == Some(f)
                &&& f.len() == 0 ==> w->fallback is None
            }
        }),
{
}

/// Each side has its own address, and where no address answered the error names
/// those that were asked.
pub proof fn error_names_the_addresses_that_were_asked(p: Seq<char>, f: Seq<char>)
    ensures
        on_side(Some(p), Some(f), Side::Primary) == Some(p),
        on_side(Some(p), Some(f), Side::Fallback) == Some(f),
        unreachable_error(Some(p), None) == "Server 不可达（primary="@ + p + "）"@,
        unreachable_error(None, Some(f)) == "Server 不可达（fallback="@ + f + "）"@,
        unreachable_error(Some(p), Some(f)) == "Server 不可达（primary="@ + p + ", fallback="@ + f
            + "）"@,
{
}

/// Letters, digits and four marks stand for themselves in an address, and every
/// other byte is written as two hexadecimal digits behind a mark; what is
/// written of bytes is what is written of each, one after the other.
pub proof fn bytes_are_written_one_after_the_other(bytes: Seq<u8>, b: u8)
    ensures
        percent_encoded(Seq::empty()).len() == 0,
        ({
            let c = b as char;
            let itself = ('0' <= c <= '9') || ('A' <= c <= 'Z') || ('a' <= c <= 'z') || c == '-'
                || c == '.' || c == '_' || c == '~';
            &&& itself ==> percent_encoded(bytes.push(b)) == percent_encoded(bytes).push(c)
            &&& !itself ==> percent_encoded(bytes.push(b)) == percent_encoded(bytes) + (seq!['%']
                + crate::text::hex(b as nat, 2, true))
        }),
{
    assert(bytes.push(b).drop_last() =~= bytes);
    let c = b as char;
    assert(percent_encoded(bytes) + seq![c] =~= percent_encoded(bytes).push(c));
}

/// A path stands behind the address of the server with no slash too many, however
/// many slashes the address ends with.
pub proof fn slashes_of_the_address_do_not_matter(base: Seq<char>, path: Seq<char>)
    ensures
        at(base.push('/'), path) == at(base, path),
        base.len() == 0 || base.last() != '/' ==> at(base, path) == base + path,
{
    assert(base.push('/').drop_last() =~= base);
}

/// A request carries the secret, goes where it is sent, and waits ten seconds
/// where nothing else is said; one with a body is posted with what it is.
pub proof fn requests_carry_the_secret(
    method: Method,
    url: Seq<char>,
    secret: Seq<char>,
    failure: Seq<char>,
    content_type: Seq<char>,
    body: Seq<u8>,
    timeout_secs: u64,
)
    ensures
        ({
            let plain = asking(method, url, secret, failure);
            &&& plain.method == method && plain.url == url && plain.secret == Some(secret)
            &&& plain.content_type is None && plain.body is None
            &&& plain.timeout_secs == 10 && plain.failure == failure
        }),
        ({
            let full = sending(url, secret, content_type, body, timeout_secs, failure);
            &&& full.method == Method::Post && full.url == url && full.secret == Some(secret)
            &&& full.content_type == Some(content_type) && full.body == Some(body)
            &&& full.timeout_secs == timeout_secs && full.failure == failure
        }),
        DEFAULT_TIMEOUT_SECS == 10,
        PROBE_TIMEOUT_SECS == 2,
        REFRESH_TIMEOUT_SECS == 45,
        UPLOAD_TIMEOUT_SECS == 60,
{
}

/// What is sent to the server can be looked up in it by name: from which account
/// to switch and why, for how long this machine keeps the accounts alive, and
/// which account it switched to and whether the server is to follow.
pub proof fn bodies_say_what_they_are_given(
    from: Option<Seq<char>>,
    reason: Seq<char>,
    ttl_secs: int,
    new_id: Seq<char>,
    apply_to_disk: bool,
)
    ensures
        from is Some ==> switch_body(from, reason).get("from"@) == Some(
            JsonTree::Text(from->Some_0),
        ),
        from is None ==> switch_body(from, reason).get("from"@) == Some(JsonTree::Null),
        switch_body(from, reason).get("reason"@) == Some(JsonTree::Text(reason)),
        heartbeat_body(ttl_secs).get("ttl_secs"@) == Some(JsonTree::Int(ttl_secs)),
        solo_switch_body(new_id, apply_to_disk).get("current"@) == Some(JsonTree::Text(new_id)),
        solo_switch_body(new_id, apply_to_disk).get("apply_to_disk"@) == Some(
            JsonTree::Bool(apply_to_disk),
        ),
{
    reveal_strlit("from");
    reveal_strlit("reason");
    reveal_strlit("current");
    reveal_strlit("apply_to_disk");
    assert("from"@.len() == 4 && "reason"@.len() == 6);
    assert("current"@.len() == 7 && "apply_to_disk"@.len() == 13);
    let none = Seq::<(Seq<char>, JsonTree)>::empty();
    let given = text_or_null(from);
    let a = crate::json::with_member(none, "from"@, given);
    let why = JsonTree::Text(reason);
    crate::json::member_put_in_is_found(none, "from"@, given, "reason"@);
    crate::json::member_put_in_is_found(a, "reason"@, why, "from"@);
    let switch = switch_body(from, reason);
    assert(switch->Object_0 == crate::json::with_member(a, "reason"@, why));
    let secs = JsonTree::Int(ttl_secs);
    crate::json::member_put_in_is_found(none, "ttl_secs"@, secs, "ttl_secs"@);
    let heartbeat = heartbeat_body(ttl_secs);
    assert(heartbeat->Object_0 == crate::json::with_member(none, "ttl_secs"@, secs));
    let id = JsonTree::Text(new_id);
    let b = crate::json::with_member(none, "current"@, id);
    let follow = JsonTree::Bool(apply_to_disk);
    crate::json::member_put_in_is_found(none, "current"@, id, "apply_to_disk"@);
    crate::json::member_put_in_is_found(b, "apply_to_disk"@, follow, "current"@);
    let solo = solo_switch_body(new_id, apply_to_disk);
    assert(solo->Object_0 == crate::json::with_member(b, "apply_to_disk"@, follow));
}

/// An answer in the two hundreds is no error; a wrong secret is told as such,
/// and any other status is named behind what was asked.
pub proof fn errors_name_the_status(status: u16, front: Seq<char>)
    ensures
        200 <= status < 300 <==> answer_error(status, front) is None,
        answer_error(401, front) == Some("共享密钥不正确"@),
        !(200 <= status < 300) && status != 401 ==> answer_error(status, front) == Some(
            front + status_line(status),
        ),
        is_status(status) <==> 100 <= status < 1_000,
{
}

/// An answer gives the part under a name just where it went well, holds a
/// document, and the document has that part; else the error says which of these
/// fails.
pub proof fn part_is_given_where_the_answer_has_it(answer: Answer, name: Seq<char>)
    ensures
        no_part(answer, name) is None <==> 200 <= answer.status < 300 && answer.document() is Some
            && answer.document()->Some_0.get(name) is Some,
        answer.status == 401 ==> no_part(answer, name) == Some("共享密钥不正确"@),
        200 <= answer.status < 300 && answer.document() is Some
            && answer.document()->Some_0.get(name) is None ==> no_part(answer, name) == Some(
            "响应缺少 "@ + name + " 字段"@,
        ),
        200 <= answer.status < 300 && answer.document() is None ==> no_part(answer, name) == Some(
            ""@ + answer.unreadable@,
        ),
{
}

/// A refreshed quota is the usage in an answer that went well. Where it did not,
/// the error is the one that the server gives, or an unknown one; a wrong secret
/// is told as such whatever the body holds.
pub proof fn refreshed_quota_is_the_usage_in_the_answer(
    status: u16,
    body: JsonTree,
    usage: JsonTree,
    error: Seq<char>,
    answer: Answer,
)
    ensures
        200 <= status < 300 && body.get("usage"@) == Some(usage) ==> refreshed(status, body) == Ok::<
            JsonTree,
            Seq<char>,
        >(usage),
        200 <= status < 300 && body.get("usage"@) is None ==> refreshed(status, body) == Err::<
            JsonTree,
            Seq<char>,
        >("响应缺少 usage 字段"@),
        !(200 <= status < 300) && body.get("error"@) == Some(JsonTree::Text(error)) ==> refreshed(
            status,
            body,
        ) == Err::<JsonTree, Seq<char>>(error),
        !(200 <= status < 300) && body.text_at("error"@) is None ==> refreshed(status, body)
            == Err::<JsonTree, Seq<char>>("未知错误"@),
        answer.status == 401 ==> not_refreshed(answer) == Some("共享密钥不正确"@),
        answer.status != 401 && answer.document() is None ==> not_refreshed(answer) == Some(
            "解析刷新响应失败: "@ + answer.unreadable@,
        ),
        answer.status != 401 && answer.document() == Some(body) ==> (not_refreshed(answer) is None
            <==> refreshed(answer.status, body) is Ok) && (refreshed(answer.status, body) is Err
            ==> not_refreshed(answer) == Some(refreshed(answer.status, body)->Err_0)),
{
}

/// A request is told field by field, and so is what is to be done to find an
/// address.
pub proof fn requests_are_told_field_by_field(
    r: Request,
    text: String,
    primary: Option<String>,
    fallback: Option<String>,
)
    ensures
        r@.method == r.method && r@.url == r.url@ && r@.failure == r.failure@,
        r@.secret == crate::text::opt_text(r.secret),
        r@.content_type == crate::text::opt_text(r.content_type),
        r.body is Some ==> r@.body == Some(r.body->Some_0@),
        r.body is None ==> r@.body is None,
        r@.timeout_secs == r.timeout_secs,
        Choice::Fail(text)@ == Way::Fail(text@),
        Choice::Use(text)@ == Way::Use(text@),
        (Choice::Ask { primary, fallback })@ == (Way::Ask {
            primary: crate::text::opt_text(primary),
            fallback: crate::text::opt_text(fallback),
        }),
{
}

} // verus!
