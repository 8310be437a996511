//! What relays do each in their own way.
use crate::json::{flag_value, from_value, insert_value, parse_value, value_bytes, Json, JsonTree};
use crate::text::{
    chars_of, has_text, same_text, split_once, string_of, take_before, to_ascii_lowercase,
};
use vstd::prelude::*;

verus! {

broadcast use {crate::json::lemma_array, crate::json::lemma_object};

/// Who stands behind a relay.
#[derive(Clone, Copy, Debug, PartialEq, Eq, Structural)]
pub enum RelayProvider {
    /// Xiaomi MiMo
    Mimo,
    /// Zhipu GLM
    Glm,
    DeepSeek,
    /// Anybody else
    Generic,
}

/// Whether a character ends the host and the port of an address.
pub open spec fn ends_authority(c: char) -> bool {
    c == '/' || c == '?' || c == '#'
}

/// What stands in a text before the first character that ends the host and the
/// port: all of it where there is none.
pub open spec fn authority(s: Seq<char>) -> Seq<char>
    decreases s.len(),
{
    if s.len() == 0 || ends_authority(s[0]) {
        Seq::empty()
    } else {
        seq![s[0]] + authority(s.skip(1))
    }
}

/// What stands in a text behind the last `c`: all of it where there is none.
pub open spec fn behind_last(s: Seq<char>, c: char) -> Seq<char>
    decreases s.len(),
{
    if s.contains(c) {
        proof {
            crate::text::lemma_first_index(s, c);
        }
        behind_last(crate::text::behind(s, c), c)
    } else {
        s
    }
}

/// What stands in an address behind its scheme, if it has one: behind two
/// slashes that follow a colon, or that the address starts with.
pub open spec fn behind_scheme(url: Seq<char>) -> Seq<char> {
    let front = authority(url);
    if (front.len() == 0 || front.last() == ':') && crate::text::occurs_at(
        url,
        "//"@,
        front.len() as int,
    ) {
        url.skip((front.len() + 2) as int)
    } else {
        url
    }
}

/// The host in an address: what stands behind its scheme and behind the user,
/// up to the port or the path.
pub open spec fn host_of(url: Seq<char>) -> Seq<char> {
    crate::text::before(behind_last(authority(behind_scheme(url)), '@'), ':')
}

/// Who stands behind an address: it is told by the domain in its host, whatever
/// the case of its letters.
pub open spec fn provider_of(base_url: Option<Seq<char>>) -> RelayProvider {
    match base_url {
        None => RelayProvider::Generic,
        Some(url) => {
            let host = crate::text::ascii_lowercase(host_of(url));
            if crate::text::contains_text(host, "xiaomimimo.com"@) {
                RelayProvider::Mimo
            } else if crate::text::contains_text(host, "bigmodel.cn"@) {
                RelayProvider::Glm
            } else if crate::text::contains_text(host, "deepseek.com"@) {
                RelayProvider::DeepSeek
            } else {
                RelayProvider::Generic
            }
        },
    }
}

/// The end of what `authority` gives, in a text from a position on.
fn authority_end(chars: &Vec<char>, from: usize) -> (r: usize)
    requires
        from <= chars@.len(),
    ensures
        from <= r <= chars@.len(),
        chars@.subrange(from as int, r as int) == authority(chars@.skip(from as int)),
{
    let ghost all = chars@;
    let mut i: usize = from;
    assert(all.subrange(from as int, from as int) + authority(all.skip(from as int)) =~= authority(
        all.skip(from as int),
    ));
    while i < chars.len() && !(chars[i] == '/' || chars[i] == '?' || chars[i] == '#')
        invariant
            all == chars@,
            from <= i <= chars@.len(),
            all.subrange(from as int, i as int) + authority(all.skip(i as int)) == authority(
                all.skip(from as int),
            ),
        decreases chars@.len() - i,
    {
        let ghost rest = all.skip(i as int);
        assert(rest[0] == all[i as int]);
        assert(rest.skip(1) =~= all.skip(i + 1));
        assert(all.subrange(from as int, i as int) + (seq![rest[0]] + authority(rest.skip(1)))
            =~= all.subrange(from as int, i + 1) + authority(rest.skip(1)));
        i += 1;
    }
    let ghost rest = all.skip(i as int);
    assert(rest.len() > 0 ==> rest[0] == all[i as int]);
    assert(authority(rest) =~= Seq::<char>::empty());
    assert(all.subrange(from as int, i as int) + authority(rest) =~= all.subrange(
        from as int,
        i as int,
    ));
    i
}

/// What stands in a text behind the last `c`.
fn take_behind_last(s: &str, c: char) -> (r: String)
    ensures
        r@ == behind_last(s@, c),
    decreases s@.len(),
{
    match split_once(s, c) {
        Some((_, rest)) => {
            proof {
                crate::text::lemma_first_index(s@, c);
            }
            take_behind_last(rest.as_str(), c)
        },
        None => s.to_owned(),
    }
}

/// The host in an address.
fn find_host(url: &str) -> (r: String)
    ensures
        r@ == host_of(url@),
{
    let chars = chars_of(url);
    let end: usize = authority_end(&chars, 0);
    assert(chars@.skip(0) =~= chars@);
    let ghost front = authority(url@);
    assert(front =~= chars@.subrange(0, end as int));
    let schemed = (end == 0 || chars[end - 1] == ':') && chars.len() - end >= 2 && chars[end] == '/'
        && chars[end + 1] == '/';
    proof {
        reveal_strlit("//");
        if schemed {
            assert(url@.subrange(end as int, end + 2) =~= "//"@);
        } else if crate::text::occurs_at(url@, "//"@, end as int) {
            let slashes = url@.subrange(end as int, end + 2);
            assert(slashes[0] == url@[end as int] && slashes[1] == url@[end + 1]);
        }
    }
    let start: usize = if schemed {
        end + 2
    } else {
        0
    };
    assert(behind_scheme(url@) =~= chars@.skip(start as int));
    let stop: usize = authority_end(&chars, start);
    let place = string_of(&chars, start, stop);
    let host = take_behind_last(place.as_str(), '@');
    take_before(host.as_str(), ':')
}

/// Who stands behind an address.
pub fn detect_provider(base_url: Option<&str>) -> (r: RelayProvider)
    ensures
        r == provider_of(crate::text::opt_str(base_url)),
{
    let url = match base_url {
        Some(url) => url,
        None => {
            return RelayProvider::Generic;
        },
    };
    let host = to_ascii_lowercase(find_host(url).as_str());
    if has_text(host.as_str(), "xiaomimimo.com") {
        RelayProvider::Mimo
    } else if has_text(host.as_str(), "bigmodel.cn") {
        RelayProvider::Glm
    } else if has_text(host.as_str(), "deepseek.com") {
        RelayProvider::DeepSeek
    } else {
        RelayProvider::Generic
    }
}

proof fn lemma_authority_lower(s: Seq<char>)
    ensures
        authority(crate::text::ascii_lowercase(s)) == crate::text::ascii_lowercase(authority(s)),
        authority(s).len() <= s.len(),
        forall|i: int| 0 <= i < authority(s).len() ==> #[trigger] authority(s)[i] == s[i],
    decreases s.len(),
{
    let lower = crate::text::ascii_lowercase(s);
    if s.len() > 0 && !ends_authority(s[0]) {
        lemma_authority_lower(s.skip(1));
        assert(lower[0] == crate::text::ascii_lower(s[0]));
        assert(lower.skip(1) =~= crate::text::ascii_lowercase(s.skip(1)));
        assert(authority(lower) =~= crate::text::ascii_lowercase(authority(s)));
        assert forall|i: int| 0 <= i < authority(s).len() implies #[trigger] authority(s)[i]
            == s[i] by {
            if i > 0 {
                assert(authority(s)[i] == authority(s.skip(1))[i - 1]);
            }
        }
    } else {
        assert(s.len() > 0 ==> lower[0] == s[0]);
        assert(authority(lower) =~= crate::text::ascii_lowercase(authority(s)));
    }
}

proof fn lemma_first_index_lower(s: Seq<char>, c: char)
    requires
        c == '@' || c == ':',
    ensures
        crate::text::first_index(crate::text::ascii_lowercase(s), c) == crate::text::first_index(
            s,
            c,
        ),
        crate::text::ascii_lowercase(s).contains(c) == s.contains(c),
    decreases s.len(),
{
    let lower = crate::text::ascii_lowercase(s);
    if s.len() > 0 {
        assert(lower[0] == crate::text::ascii_lower(s[0]));
        assert(lower.skip(1) =~= crate::text::ascii_lowercase(s.skip(1)));
        lemma_first_index_lower(s.skip(1), c);
    }
    crate::text::lemma_first_index(s, c);
    crate::text::lemma_first_index(lower, c);
}

proof fn lemma_behind_last_lower(s: Seq<char>)
    ensures
        behind_last(crate::text::ascii_lowercase(s), '@') == crate::text::ascii_lowercase(
            behind_last(s, '@'),
        ),
    decreases s.len(),
{
    let lower = crate::text::ascii_lowercase(s);
    lemma_first_index_lower(s, '@');
    crate::text::lemma_first_index(s, '@');
    if s.contains('@') {
        lemma_behind_last_lower(crate::text::behind(s, '@'));
        assert(crate::text::behind(lower, '@') =~= crate::text::ascii_lowercase(
            crate::text::behind(s, '@'),
        ));
    }
}

proof fn lemma_behind_scheme_lower(url: Seq<char>)
    ensures
        behind_scheme(crate::text::ascii_lowercase(url)) == crate::text::ascii_lowercase(
            behind_scheme(url),
        ),
{
    let lower = crate::text::ascii_lowercase(url);
    let front = authority(url);
    let n = front.len() as int;
    lemma_authority_lower(url);
    reveal_strlit("//");
    if n > 0 {
        assert(authority(lower).last() == crate::text::ascii_lower(front.last()));
    }
    if n + 2 <= url.len() {
        let a = url.subrange(n, n + 2);
        let b = lower.subrange(n, n + 2);
        assert(a[0] == url[n] && a[1] == url[n + 1]);
        assert(b[0] == crate::text::ascii_lower(url[n]));
        assert(b[1] == crate::text::ascii_lower(url[n + 1]));
        assert(a =~= "//"@ <==> b =~= "//"@);
        assert(lower.skip(n + 2) =~= crate::text::ascii_lowercase(url.skip(n + 2)));
    }
}

proof fn lemma_host_lower(url: Seq<char>)
    ensures
        host_of(crate::text::ascii_lowercase(url)) == crate::text::ascii_lowercase(host_of(url)),
{
    let rest = behind_scheme(url);
    lemma_behind_scheme_lower(url);
    lemma_authority_lower(rest);
    lemma_behind_last_lower(authority(rest));
    let place = behind_last(authority(rest), '@');
    lemma_first_index_lower(place, ':');
    crate::text::lemma_first_index(place, ':');
    assert(crate::text::before(crate::text::ascii_lowercase(place), ':')
        =~= crate::text::ascii_lowercase(crate::text::before(place, ':')));
}

/// The case of letters does not matter to who stands behind an address.
pub proof fn case_does_not_matter(a: Seq<char>, b: Seq<char>)
    requires
        crate::text::ascii_lowercase(a) == crate::text::ascii_lowercase(b),
    ensures
        provider_of(Some(a)) == provider_of(Some(b)),
{
    lemma_host_lower(a);
    lemma_host_lower(b);
}

/// Nothing but the host of an address tells who stands behind it.
pub proof fn only_the_host_matters(a: Seq<char>, b: Seq<char>)
    requires
        host_of(a) == host_of(b),
    ensures
        provider_of(Some(a)) == provider_of(Some(b)),
{
}

proof fn lemma_authority_stops(s: Seq<char>, rest: Seq<char>)
    requires
        forall|i: int| 0 <= i < s.len() ==> !ends_authority(#[trigger] s[i]),
        rest.len() == 0 || ends_authority(rest[0]),
    ensures
        authority(s + rest) == s,
    decreases s.len(),
{
    let all = s + rest;
    if s.len() == 0 {
        assert(all =~= rest);
        assert(authority(all) =~= s);
    } else {
        lemma_authority_stops(s.skip(1), rest);
        assert(all[0] == s[0]);
        assert(all.skip(1) =~= s.skip(1) + rest);
        assert(authority(all) =~= s);
    }
}

/// In an address of the usual form, the host is what stands between the scheme
/// and the path.
pub proof fn host_stands_between_scheme_and_path(
    scheme: Seq<char>,
    host: Seq<char>,
    path: Seq<char>,
)
    requires
        forall|i: int| 0 <= i < scheme.len() ==> !ends_authority(#[trigger] scheme[i]),
        forall|i: int| 0 <= i < host.len() ==> !ends_authority(#[trigger] host[i]),
        !host.contains('@') && !host.contains(':'),
        path.len() == 0 || ends_authority(path[0]),
    ensures
        host_of(scheme + "://"@ + host + path) == host,
{
    reveal_strlit("://");
    reveal_strlit("//");
    let url = scheme + "://"@ + host + path;
    let front = scheme.push(':');
    let rest = "//"@ + host + path;
    assert(url =~= front + rest);
    assert(rest[0] == '/');
    lemma_authority_stops(front, rest);
    assert(front.last() == ':');
    assert(url.subrange(front.len() as int, (front.len() + 2) as int) =~= "//"@);
    assert(url.skip((front.len() + 2) as int) =~= host + path);
    lemma_authority_stops(host, path);
    crate::text::lemma_first_index(host, ':');
    assert(crate::text::before(host, ':') =~= host);
}

// ---------------------------------------------------------------------- bodies

/// Whether a tool searches the web.
pub open spec fn searches(tool: JsonTree) -> bool {
    tool.text_at("type"@) == Some("web_search"@) || tool.get("web_search"@) is Some
}

/// Whether one of the tools of a request searches the web.
pub open spec fn wants_search(doc: JsonTree) -> bool {
    match doc.items_at("tools"@) {
        Some(tools) => exists|i: int| 0 <= i < tools.len() && searches(#[trigger] tools[i]),
        None => false,
    }
}

/// A request that says that the web may be searched.
pub open spec fn with_search_flag(doc: JsonTree) -> JsonTree {
    JsonTree::Object(
        crate::json::with_member(doc->Object_0, "webSearchEnabled"@, JsonTree::Bool(true)),
    )
}

/// The body that is sent in the place of another. Only for MiMo is a body
/// changed, and only where it is a document that asks for a search.
pub open spec fn sent_body(provider: RelayProvider, body: Seq<u8>) -> Seq<u8> {
    match (provider, crate::json::json_document(body)) {
        (RelayProvider::Mimo, Ok(doc)) => if wants_search(doc) {
            crate::json::json_bytes(with_search_flag(doc))
        } else {
            body
        },
        _ => body,
    }
}

/// Whether one of the tools of a request searches the web.
pub fn has_web_search(doc: &Json) -> (r: bool)
    ensures
        r == wants_search(doc@),
{
    let tools = match doc.items_under("tools") {
        Some(t) => t,
        None => {
            return false;
        },
    };
    let ghost all = crate::json::trees(tools@);
    for i in 0..tools.len()
        invariant
            all == crate::json::trees(tools@),
            doc@.items_at("tools"@) == Some(all),
            forall|j: int| 0 <= j < i ==> !searches(#[trigger] all[j]),
    {
        assert(all[i as int] == tools@[i as int]@);
        let typed = match tools[i].text_under("type") {
            Some(t) => same_text(t.as_str(), "web_search"),
            None => false,
        };
        if typed || tools[i].get("web_search").is_some() {
            let ghost found = doc@.items_at("tools"@)->Some_0;
            assert(searches(found[i as int]));
            return true;
        }
    }
    false
}

/// Whether a body that was changed is the same document with the flag set, and
/// stays as it is when it is made ready again. This is promised of documents
/// without numbers but integers of 64 bits: `serde_json` does not promise to
/// read back other numbers as they were.
pub open spec fn only_flagged(before: Seq<u8>, after: Seq<u8>) -> bool {
    match crate::json::json_document(before) {
        Ok(doc) => wants_search(doc) && crate::json::integral(doc) ==> crate::json::reads_as(
            after,
            with_search_flag(doc),
        ) && sent_body(RelayProvider::Mimo, after) == after,
        Err(_) => true,
    }
}

proof fn lemma_still_wants_search(doc: JsonTree)
    requires
        wants_search(doc),
    ensures
        wants_search(with_search_flag(doc)),
        with_search_flag(with_search_flag(doc)) == with_search_flag(doc),
{
    reveal_strlit("tools");
    reveal_strlit("webSearchEnabled");
    assert("tools"@.len() == 5);
    flag_leaves_the_rest(doc, "tools"@);
    flag_is_set_once(doc);
}

fn force_mimo_web_search_flag(body: &mut Vec<u8>)
    ensures
        final(body)@ == sent_body(RelayProvider::Mimo, old(body)@),
        only_flagged(old(body)@, final(body)@),
{
    let mut value = match parse_value(body.as_slice()) {
        Ok(v) => v,
        Err(_) => {
            return ;
        },
    };
    let doc = from_value(&value);
    if !has_web_search(&doc) {
        return ;
    }
    insert_value(&mut value, "webSearchEnabled", flag_value(true));
    proof {
        let pairs = doc@->Object_0;
        let flag = JsonTree::Bool(true);
        let levels = crate::json::MOST_LEVELS as nat;
        assert(doc@ == JsonTree::Object(pairs));
        crate::json::shaped_object_stays_shaped(pairs, "webSearchEnabled"@, flag, levels);
        if crate::json::integral(doc@) {
            crate::json::integral_object_stays_integral(pairs, "webSearchEnabled"@, flag);
        }
        lemma_still_wants_search(doc@);
    }
    match value_bytes(&value) {
        Some(out) => {
            *body = out;
        },
        None => {},
    }
}

/// Makes a body ready to be sent.
pub fn preprocess_chat_body(provider: RelayProvider, body: &mut Vec<u8>)
    ensures
        final(body)@ == sent_body(provider, old(body)@),
        provider == RelayProvider::Mimo ==> only_flagged(old(body)@, final(body)@),
{
    match provider {
        RelayProvider::Mimo => force_mimo_web_search_flag(body),
        RelayProvider::Glm | RelayProvider::DeepSeek | RelayProvider::Generic => {},
    }
}

/// Nobody's bodies are changed but those for MiMo.
pub proof fn only_mimo_bodies_change(provider: RelayProvider, body: Seq<u8>)
    requires
        provider != RelayProvider::Mimo,
    ensures
        sent_body(provider, body) == body,
{
}

/// Setting the flag sets the flag, and leaves all else in the request as it is.
pub proof fn flag_leaves_the_rest(doc: JsonTree, other: Seq<char>)
    requires
        doc is Object,
    ensures
        with_search_flag(doc).get("webSearchEnabled"@) == Some(JsonTree::Bool(true)),
        other != "webSearchEnabled"@ ==> with_search_flag(doc).get(other) == doc.get(other),
{
    crate::json::member_put_in_is_found(
        doc->Object_0,
        "webSearchEnabled"@,
        JsonTree::Bool(true),
        other,
    );
    let flagged = with_search_flag(doc);
    assert(flagged->Object_0 == crate::json::with_member(
        doc->Object_0,
        "webSearchEnabled"@,
        JsonTree::Bool(true),
    ));
}

/// A request with the flag set stays as it is when the flag is set again.
pub proof fn flag_is_set_once(doc: JsonTree)
    requires
        doc is Object,
    ensures
        with_search_flag(with_search_flag(doc)) == with_search_flag(doc),
{
    crate::json::member_put_in_twice(doc->Object_0, "webSearchEnabled"@, JsonTree::Bool(true));
    let flagged = with_search_flag(doc);
    assert(flagged->Object_0 == crate::json::with_member(
        doc->Object_0,
        "webSearchEnabled"@,
        JsonTree::Bool(true),
    ));
}

// ----------------------------------------------------------------------- hints

/// What the user can do about an error, whose message is given in lower case.
pub open spec fn hint_of(provider: RelayProvider, msg_lower: Seq<char>) -> Option<Seq<char>> {
    match provider {
        RelayProvider::Mimo => if crate::text::contains_text(
            msg_lower,
            "websearchenabled is false"@,
        ) {
            Some(
                "MiMo Web Search Plugin 未激活；到 https://platform.xiaomimimo.com/#/console/plugin 开通后重新发起请求。"@,
            )
        } else if crate::text::contains_text(msg_lower, "reasoning_content"@)
            && crate::text::contains_text(msg_lower, "must be passed back"@) {
            Some(
                "MiMo thinking 模式要求历史里的 assistant 轮回传完整 reasoning_content；本机已通过 encrypted_content round-trip 修复，如仍报此错可能是 codex 版本不支持，升级 codex 到 0.130+。"@,
            )
        } else {
            None
        },
        RelayProvider::Glm => if crate::text::contains_text(
            msg_lower,
            "prompt exceeds max length"@,
        ) || crate::text::contains_text(msg_lower, "1261"@) {
            Some(
                "GLM 上下文超长（错误码 1261）。Codex 收到本错误后会自动 compact 历史并重试，无需手动处理。"@,
            )
        } else {
            None
        },
        RelayProvider::DeepSeek => if crate::text::contains_text(
            msg_lower,
            "insufficient_balance"@,
        ) || crate::text::contains_text(msg_lower, "余额不足"@) {
            Some(
                "DeepSeek 账户余额不足，前往 https://platform.deepseek.com/usage 充值后重试。"@,
            )
        } else {
            None
        },
        RelayProvider::Generic => None,
    }
}

/// What the user can do about an error, whose message is given in lower case.
pub fn enhance_error_hint(provider: RelayProvider, msg_lower: &str) -> (r: Option<&'static str>)
    ensures
        crate::text::opt_str(r) == hint_of(provider, msg_lower@),
{
    match provider {
        RelayProvider::Mimo => {
            if has_text(msg_lower, "websearchenabled is false") {
                return Some(
                    "MiMo Web Search Plugin 未激活；到 https://platform.xiaomimimo.com/#/console/plugin 开通后重新发起请求。",
                );
            }
            if has_text(msg_lower, "reasoning_content") && has_text(
                msg_lower,
                "must be passed back",
            ) {
                return Some(
                    "MiMo thinking 模式要求历史里的 assistant 轮回传完整 reasoning_content；本机已通过 encrypted_content round-trip 修复，如仍报此错可能是 codex 版本不支持，升级 codex 到 0.130+。",
                );
            }
            None
        },
        RelayProvider::Glm => {
            if has_text(msg_lower, "prompt exceeds max length") || has_text(msg_lower, "1261") {
                return Some(
                    "GLM 上下文超长（错误码 1261）。Codex 收到本错误后会自动 compact 历史并重试，无需手动处理。",
                );
            }
            None
        },
        RelayProvider::DeepSeek => {
            if has_text(msg_lower, "insufficient_balance") || has_text(msg_lower, "余额不足") {
                return Some(
                    "DeepSeek 账户余额不足，前往 https://platform.deepseek.com/usage 充值后重试。",
                );
            }
            None
        },
        RelayProvider::Generic => None,
    }
}

// ------------------------------------------------------------------------- laws

proof fn lemma_behind_last(front: Seq<char>, c: char, rest: Seq<char>)
    requires
        !rest.contains(c),
    ensures
        behind_last(front.push(c) + rest, c) == rest,
        behind_last(rest, c) == rest,
    decreases front.len(),
{
    let s = front.push(c) + rest;
    crate::text::lemma_first_index(s, c);
    assert(s[front.len() as int] == c);
    assert(s.contains(c));
    let k = crate::text::first_index(s, c);
    assert(k <= front.len());
    assert(behind_last(s, c) == behind_last(crate::text::behind(s, c), c));
    if k < front.len() {
        let left = front.skip(k + 1);
        lemma_behind_last(left, c, rest);
        assert(crate::text::behind(s, c) =~= left.push(c) + rest);
    } else {
        assert(crate::text::behind(s, c) =~= rest);
    }
}

/// The host of an address is what stands between the scheme and the path, and
/// neither the user before it nor the port behind it counts.
pub proof fn user_and_port_do_not_count(
    scheme: Seq<char>,
    user: Seq<char>,
    host: Seq<char>,
    port: Seq<char>,
    path: Seq<char>,
)
    requires
        forall|i: int|
            0 <= i < scheme.len() ==> (#[trigger] scheme[i]) != '/' && scheme[i] != '?' && scheme[i]
                != '#',
        forall|i: int|
            0 <= i < user.len() ==> (#[trigger] user[i]) != '/' && user[i] != '?' && user[i] != '#',
        forall|i: int|
            0 <= i < host.len() ==> (#[trigger] host[i]) != '/' && host[i] != '?' && host[i] != '#'
                && host[i] != '@' && host[i] != ':',
        forall|i: int|
            0 <= i < port.len() ==> (#[trigger] port[i]) != '/' && port[i] != '?' && port[i] != '#'
                && port[i] != '@',
        path.len() == 0 || path[0] == '/' || path[0] == '?' || path[0] == '#',
    ensures
        host_of(scheme + "://"@ + host + path) == host,
        host_of(scheme + "://"@ + (user.push('@') + host.push(':') + port) + path) == host,
{
    assert(forall|i: int| 0 <= i < scheme.len() ==> !ends_authority(#[trigger] scheme[i]));
    assert(forall|i: int| 0 <= i < host.len() ==> !ends_authority(#[trigger] host[i]));
    host_stands_between_scheme_and_path(scheme, host, path);
    reveal_strlit("://");
    reveal_strlit("//");
    let target = host.push(':') + port;
    let place = user.push('@') + host.push(':') + port;
    let url = scheme + "://"@ + place + path;
    let front = scheme.push(':');
    let rest = "//"@ + place + path;
    assert(url =~= front + rest);
    assert(rest[0] == '/');
    lemma_authority_stops(front, rest);
    assert(front.last() == ':');
    assert(url.subrange(front.len() as int, (front.len() + 2) as int) =~= "//"@);
    assert(url.skip((front.len() + 2) as int) =~= place + path);
    assert forall|i: int| 0 <= i < place.len() implies !ends_authority(#[trigger] place[i]) by {
        if i < user.len() {
            assert(place[i] == user[i]);
        } else if user.len() < i < user.len() + 1 + host.len() {
            assert(place[i] == host[i - user.len() - 1]);
        } else if i > user.len() + 1 + host.len() {
            assert(place[i] == port[i - user.len() - host.len() - 2]);
        }
    }
    lemma_authority_stops(place, path);
    assert forall|i: int| 0 <= i < target.len() implies #[trigger] target[i] != '@' by {
        if i < host.len() {
            assert(target[i] == host[i]);
        } else if i > host.len() {
            assert(target[i] == port[i - host.len() - 1]);
        }
    }
    assert(place =~= user.push('@') + target);
    lemma_behind_last(user, '@', target);
    crate::text::lemma_first_index(target, ':');
    assert(target[host.len() as int] == ':');
    assert(forall|i: int| 0 <= i < host.len() ==> target[i] == host[i]);
    assert(crate::text::before(target, ':') =~= host);
}

/// Who stands behind an address is told by the domain that its host holds, in
/// whatever case it is written; of several the first of three counts, and where
/// there is none of them it is anybody.
pub proof fn provider_is_told_by_the_domain(
    scheme: Seq<char>,
    host: Seq<char>,
    path: Seq<char>,
)
    requires
        forall|i: int|
            0 <= i < scheme.len() ==> (#[trigger] scheme[i]) != '/' && scheme[i] != '?' && scheme[i]
                != '#',
        forall|i: int|
            0 <= i < host.len() ==> (#[trigger] host[i]) != '/' && host[i] != '?' && host[i] != '#'
                && host[i] != '@' && host[i] != ':',
        path.len() == 0 || path[0] == '/' || path[0] == '?' || path[0] == '#',
    ensures
        ({
            let who = provider_of(Some(scheme + "://"@ + host + path));
            let lower = crate::text::ascii_lowercase(host);
            let mimo = crate::text::contains_text(lower, "xiaomimimo.com"@);
            let glm = crate::text::contains_text(lower, "bigmodel.cn"@);
            let deepseek = crate::text::contains_text(lower, "deepseek.com"@);
            &&& mimo ==> who == RelayProvider::Mimo
            &&& !mimo && glm ==> who == RelayProvider::Glm
            &&& !mimo && !glm && deepseek ==> who == RelayProvider::DeepSeek
            &&& !mimo && !glm && !deepseek ==> who == RelayProvider::Generic
        }),
        provider_of(None) == RelayProvider::Generic,
{
    user_and_port_do_not_count(scheme, Seq::empty(), host, Seq::empty(), path);
}

/// A tool searches the web where its type says so, or where it has settings for
/// that, and a request asks for a search where one of its tools does.
pub proof fn request_asks_for_a_search_where_a_tool_does(
    doc: JsonTree,
    tools: Seq<JsonTree>,
    i: int,
)
    ensures
        doc.get("tools"@) == Some(JsonTree::Array(tools)) && 0 <= i < tools.len() && (
        tools[i].get("type"@) == Some(JsonTree::Text("web_search"@)) || tools[i].get(
            "web_search"@,
        ) is Some) ==> wants_search(doc),
        doc.get("tools"@) == Some(JsonTree::Array(tools)) && (forall|j: int|
            0 <= j < tools.len() ==> (#[trigger] tools[j]).get("type"@) != Some(
                JsonTree::Text("web_search"@),
            ) && tools[j].get("web_search"@) is None) ==> !wants_search(doc),
        doc.items_at("tools"@) is None ==> !wants_search(doc),
{
    if doc.get("tools"@) == Some(JsonTree::Array(tools)) {
        assert(doc.items_at("tools"@) == Some(tools));
        if 0 <= i < tools.len() && (tools[i].get("type"@) == Some(JsonTree::Text("web_search"@))
            || tools[i].get("web_search"@) is Some) {
            let found = doc.items_at("tools"@)->Some_0;
            assert(searches(found[i]));
        }
    }
}

/// A body for MiMo that asks for a search is sent as the same document with the
/// flag set; one that does not, or that is no document, is sent as it is.
pub proof fn searching_body_is_sent_with_the_flag(body: Seq<u8>, doc: JsonTree)
    ensures
        crate::json::json_document(body) == Ok::<JsonTree, Seq<char>>(doc) && wants_search(doc)
            ==> sent_body(RelayProvider::Mimo, body) == crate::json::json_bytes(
            JsonTree::Object(
                crate::json::with_member(
                    doc->Object_0,
                    "webSearchEnabled"@,
                    JsonTree::Bool(true),
                ),
            ),
        ),
        crate::json::json_document(body) == Ok::<JsonTree, Seq<char>>(doc) && !wants_search(doc)
            ==> sent_body(RelayProvider::Mimo, body) == body,
        crate::json::json_document(body) is Err ==> sent_body(RelayProvider::Mimo, body) == body,
{
}

/// An error of MiMo is explained where it speaks of the search that is not
/// enabled, or, both at once, of the reasoning and of passing it back; the former
/// goes first.
pub proof fn errors_of_mimo_are_explained(message: Seq<char>)
    ensures
        ({
            let search = crate::text::contains_text(message, "websearchenabled is false"@);
            let reasoning = crate::text::contains_text(message, "reasoning_content"@)
                && crate::text::contains_text(message, "must be passed back"@);
            let hint = hint_of(RelayProvider::Mimo, message);
            &&& search ==> hint == Some(
                "MiMo Web Search Plugin 未激活；到 https://platform.xiaomimimo.com/#/console/plugin 开通后重新发起请求。"@,
            )
            &&& !search && reasoning ==> hint == Some(
                "MiMo thinking 模式要求历史里的 assistant 轮回传完整 reasoning_content；本机已通过 encrypted_content round-trip 修复，如仍报此错可能是 codex 版本不支持，升级 codex 到 0.130+。"@,
            )
            &&& !search && !reasoning ==> hint is None
        }),
{
}

/// An error of GLM is explained where it speaks of a prompt that is too long, or
/// by its number, one of DeepSeek where it speaks of the balance, and one of
/// anybody else never.
pub proof fn errors_of_others_are_explained(message: Seq<char>)
    ensures
        ({
            let long = crate::text::contains_text(message, "prompt exceeds max length"@)
                || crate::text::contains_text(message, "1261"@);
            let hint = hint_of(RelayProvider::Glm, message);
            &&& long ==> hint == Some(
                "GLM 上下文超长（错误码 1261）。Codex 收到本错误后会自动 compact 历史并重试，无需手动处理。"@,
            )
            &&& !long ==> hint is None
        }),
        ({
            let poor = crate::text::contains_text(message, "insufficient_balance"@)
                || crate::text::contains_text(message, "余额不足"@);
            let hint = hint_of(RelayProvider::DeepSeek, message);
            &&& poor ==> hint == Some(
                "DeepSeek 账户余额不足，前往 https://platform.deepseek.com/usage 充值后重试。"@,
            )
            &&& !poor ==> hint is None
        }),
        hint_of(RelayProvider::Generic, message) is None,
{
}

/// In an address without a scheme the host is what stands before the path.
pub proof fn host_stands_before_the_path(host: Seq<char>, path: Seq<char>)
    requires
        host.len() > 0,
        forall|i: int|
            0 <= i < host.len() ==> (#[trigger] host[i]) != '/' && host[i] != '?' && host[i] != '#'
                && host[i] != '@' && host[i] != ':',
        path.len() == 0 || path[0] == '/' || path[0] == '?' || path[0] == '#',
    ensures
        host_of(host + path) == host,
{
    assert(forall|i: int| 0 <= i < host.len() ==> !ends_authority(#[trigger] host[i]));
    lemma_authority_stops(host, path);
    assert(host.last() != ':');
    assert(!host.contains('@') && !host.contains(':'));
    crate::text::lemma_first_index(host, ':');
    assert(crate::text::before(host, ':') =~= host);
}

} // verus!
