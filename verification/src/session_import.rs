//! Turning the session JSON of a ChatGPT web login into accounts.
//!
//! A web session mostly brings no refresh token: once its access token runs
//! out, it has to be imported again. Where it brings no ID token either, one is
//! made up whose payload carries what a Codex client reads in it.
use crate::clock::{
    moved_back, parse_naive, parse_rfc3339, utc_now, utc_text, Timestamp, LAST_SECOND,
};
use crate::json::{
    flag_value, insert_value, int_value, object_value, put_member, read_json, read_json_text,
    text_value, value_bytes, Json, JsonTree,
};
use crate::text::{
    copy_opt, joined, joined3, list_has, or_text, same_text, split, trim, write_decimal, Edge,
};
use vstd::prelude::*;

verus! {

broadcast use {crate::json::lemma_array, crate::json::lemma_object};

// ------------------------------------------------------------ texts of a record

/// The text under a name, trimmed, unless nothing is left of it.
pub open spec fn some_text(obj: JsonTree, name: Seq<char>) -> Option<Seq<char>> {
    match obj.text_at(name) {
        Some(s) => {
            let t = crate::text::trimmed(s, Edge::Space);
            if t.len() > 0 {
                Some(t)
            } else {
                None
            }
        },
        None => None,
    }
}

/// The text under the first of two names that has some.
pub open spec fn first_text(obj: JsonTree, name: Seq<char>, alias: Seq<char>) -> Option<Seq<char>> {
    crate::text::either(some_text(obj, name), some_text(obj, alias))
}

/// The same, one level down.
pub open spec fn inner_text(
    obj: JsonTree,
    parent: Seq<char>,
    name: Seq<char>,
    alias: Seq<char>,
) -> Option<Seq<char>> {
    match obj.get(parent) {
        Some(p) => first_text(p, name, alias),
        None => None,
    }
}

/// The text under a name, trimmed, unless nothing is left of it.
pub fn non_empty_str(obj: &Json, name: &str) -> (r: Option<String>)
    ensures
        crate::text::opt_text(r) == some_text(obj@, name@),
{
    match obj.text_under(name) {
        Some(s) => {
            let t = trim(s.as_str(), Edge::Space);
            if t.as_str().is_empty() {
                None
            } else {
                Some(t)
            }
        },
        None => None,
    }
}

/// The text under the first of two names that has some.
pub fn first_non_empty_str(obj: &Json, name: &str, alias: &str) -> (r: Option<String>)
    ensures
        crate::text::opt_text(r) == first_text(obj@, name@, alias@),
{
    or_text(non_empty_str(obj, name), non_empty_str(obj, alias))
}

/// The text under the first of two names that has some, one level down.
pub fn nested_str(obj: &Json, parent: &str, name: &str, alias: &str) -> (r: Option<String>)
    ensures
        crate::text::opt_text(r) == inner_text(obj@, parent@, name@, alias@),
{
    match obj.get(parent) {
        Some(p) => first_non_empty_str(p, name, alias),
        None => None,
    }
}

/// The text under one of two names in the record or in its `token`, or under
/// `third` or the alias in its `credentials`.
pub open spec fn token_text(
    record: JsonTree,
    name: Seq<char>,
    alias: Seq<char>,
    third: Seq<char>,
) -> Option<Seq<char>> {
    crate::text::either(
        first_text(record, name, alias),
        crate::text::either(
            inner_text(record, "token"@, name, alias),
            inner_text(record, "credentials"@, third, alias),
        ),
    )
}

fn token_of(record: &Json, name: &str, alias: &str, third: &str) -> (r: Option<String>)
    ensures
        crate::text::opt_text(r) == token_text(record@, name@, alias@, third@),
{
    or_text(
        first_non_empty_str(record, name, alias),
        or_text(
            nested_str(record, "token", name, alias),
            nested_str(record, "credentials", third, alias),
        ),
    )
}

/// The access token of a record.
pub open spec fn access_token(record: JsonTree) -> Option<Seq<char>> {
    token_text(record, "accessToken"@, "access_token"@, "accessToken"@)
}

/// The session token of a record.
pub open spec fn session_token(record: JsonTree) -> Option<Seq<char>> {
    token_text(record, "sessionToken"@, "session_token"@, "session_token"@)
}

/// The refresh token of a record.
pub open spec fn refresh_token(record: JsonTree) -> Option<Seq<char>> {
    token_text(record, "refreshToken"@, "refresh_token"@, "refresh_token"@)
}

/// The ID token of a record.
pub open spec fn id_token(record: JsonTree) -> Option<Seq<char>> {
    token_text(record, "idToken"@, "id_token"@, "id_token"@)
}

// ------------------------------------------------------------ finding sessions

/// Whether a record says whose it is.
pub open spec fn has_identity(record: JsonTree) -> bool {
    ||| record.get("user"@) is Some && record.get("user"@)->Some_0 is Object
    ||| some_text(record, "email"@) is Some
    ||| some_text(record, "name"@) is Some
    ||| some_text(record, "id"@) is Some
    ||| inner_text(
        record,
        "providerSpecificData"@,
        "chatgptAccountId"@,
        "chatgpt_account_id"@,
    ) is Some
}

/// Whether a document looks like a session: an object with an access token and
/// something that says whose it is.
pub open spec fn is_session(value: JsonTree) -> bool {
    value is Object && access_token(value) is Some && has_identity(value)
}

/// Names of members that hold a token, which nothing is looked for under.
pub open spec fn is_token_name(name: Seq<char>) -> bool {
    name == "accessToken"@ || name == "access_token"@ || name == "sessionToken"@
}

pub open spec fn member_path(path: Seq<char>, name: Seq<char>) -> Seq<char> {
    path + "."@ + name
}

pub open spec fn item_path(path: Seq<char>, i: int) -> Seq<char> {
    path + "["@ + crate::text::decimal(i) + "]"@
}

/// The sessions in a document, each with the path that leads to it, in the
/// order of the document. Nothing is looked for inside a session.
pub open spec fn sessions(value: JsonTree, path: Seq<char>) -> Seq<(Seq<char>, JsonTree)>
    decreases value, 0nat,
{
    match value {
        JsonTree::Object(pairs) => if is_session(value) {
            seq![(path, value)]
        } else {
            sessions_in_members(pairs, path, pairs.len())
        },
        JsonTree::Array(items) => sessions_in_items(items, path, items.len()),
        _ => Seq::empty(),
    }
}

/// The sessions in the first `n` members of an object.
pub open spec fn sessions_in_members(
    pairs: Seq<(Seq<char>, JsonTree)>,
    path: Seq<char>,
    n: nat,
) -> Seq<(Seq<char>, JsonTree)>
    decreases pairs, n,
{
    if n == 0 || n > pairs.len() {
        Seq::empty()
    } else {
        proof {
            assert(decreases_to!(pairs => pairs[n - 1]));
            assert(decreases_to!(pairs[n - 1] => pairs[n - 1].1));
        }
        let before = sessions_in_members(pairs, path, (n - 1) as nat);
        let (name, value) = pairs[n - 1];
        if is_token_name(name) {
            before
        } else {
            before + sessions(value, member_path(path, name))
        }
    }
}

/// The sessions in the first `n` items of an array.
pub open spec fn sessions_in_items(items: Seq<JsonTree>, path: Seq<char>, n: nat) -> Seq<
    (Seq<char>, JsonTree),
>
    decreases items, n,
{
    if n == 0 || n > items.len() {
        Seq::empty()
    } else {
        sessions_in_items(items, path, (n - 1) as nat) + sessions(
            items[n - 1],
            item_path(path, n - 1),
        )
    }
}

/// Whether a document looks like a session.
pub fn looks_like_session(value: &Json) -> (r: bool)
    ensures
        r == is_session(value@),
{
    if !value.is_object() {
        return false;
    }
    if token_of(value, "accessToken", "access_token", "accessToken").is_none() {
        return false;
    }
    let user = match value.get("user") {
        Some(u) => u.is_object(),
        None => false,
    };
    user || non_empty_str(value, "email").is_some() || non_empty_str(value, "name").is_some()
        || non_empty_str(value, "id").is_some() || nested_str(
        value,
        "providerSpecificData",
        "chatgptAccountId",
        "chatgpt_account_id",
    ).is_some()
}

/// Adds the sessions in `value` to `out`, each with its path.
fn visit(value: &Json, path: &str, out: &mut Vec<(String, Json)>)
    ensures
        crate::json::members(final(out)@) == crate::json::members(old(out)@) + sessions(
            value@,
            path@,
        ),
    decreases value,
{
    let ghost before = crate::json::members(out@);
    match value {
        Json::Object(pairs) => {
            if looks_like_session(value) {
                out.push((path.to_owned(), value.copy()));
                assert(crate::json::members(out@) =~= before + seq![(path@, value@)]);
                return ;
            }
            let ghost all = crate::json::members(pairs@);
            assert(value@ == JsonTree::Object(all));
            for i in 0..pairs.len()
                invariant
                    value is Object,
                    *pairs == value->Object_0,
                    all == crate::json::members(pairs@),
                    crate::json::members(out@) == before + sessions_in_members(
                        all,
                        path@,
                        i as nat,
                    ),
            {
                assert(decreases_to!(*value => value->Object_0));
                assert(decreases_to!(*pairs => pairs@));
                assert(decreases_to!(pairs@ => pairs@[i as int]));
                assert(decreases_to!(pairs@[i as int] => pairs@[i as int].1));
                assert(all[i as int] == (pairs@[i as int].0@, pairs@[i as int].1@));
                let name = pairs[i].0.as_str();
                if !(same_text(name, "accessToken") || same_text(name, "access_token") || same_text(
                    name,
                    "sessionToken",
                )) {
                    let deeper = joined3(path, ".", name);
                    visit(&pairs[i].1, deeper.as_str(), out);
                }
                assert(crate::json::members(out@) =~= before + sessions_in_members(
                    all,
                    path@,
                    (i + 1) as nat,
                ));
            }
        },
        Json::Array(items) => {
            let ghost all = crate::json::trees(items@);
            assert(value@ == JsonTree::Array(all));
            for i in 0..items.len()
                invariant
                    value is Array,
                    *items == value->Array_0,
                    all == crate::json::trees(items@),
                    crate::json::members(out@) == before + sessions_in_items(all, path@, i as nat),
            {
                assert(decreases_to!(*value => value->Array_0));
                assert(decreases_to!(*items => items@));
                assert(decreases_to!(items@ => items@[i as int]));
                let number = write_decimal(i as i128);
                let deeper = joined3(joined(path, "[").as_str(), number.as_str(), "]");
                visit(&items[i], deeper.as_str(), out);
                assert(crate::json::members(out@) =~= before + sessions_in_items(
                    all,
                    path@,
                    (i + 1) as nat,
                ));
            }
        },
        _ => {
            assert(crate::json::members(out@) =~= before + Seq::<(Seq<char>, JsonTree)>::empty());
        },
    }
}

/// The sessions anywhere in a document, each with the path that leads to it.
pub fn collect_session_like(root: &Json) -> (r: Vec<(String, Json)>)
    ensures
        crate::json::members(r@) == sessions(root@, "$"@),
{
    let mut out: Vec<(String, Json)> = Vec::new();
    visit(root, "$", &mut out);
    assert(crate::json::members(out@) =~= sessions(root@, "$"@));
    out
}

/// Whether all that was found are sessions.
pub open spec fn all_sessions(found: Seq<(Seq<char>, JsonTree)>) -> bool {
    forall|i: int| 0 <= i < found.len() ==> is_session((#[trigger] found[i]).1)
}

/// Whatever is found is a session: it holds an access token, and says whose it
/// is.
pub proof fn what_is_found_is_a_session(value: JsonTree, path: Seq<char>)
    ensures
        all_sessions(sessions(value, path)),
    decreases value, 0nat,
{
    match value {
        JsonTree::Object(pairs) => {
            if is_session(value) {
                let found = seq![(path, value)];
                assert(sessions(value, path) == found);
                assert(found[0].1 == value);
            } else {
                lemma_found_in_members(pairs, path, pairs.len());
            }
        },
        JsonTree::Array(items) => {
            lemma_found_in_items(items, path, items.len());
        },
        _ => {},
    }
}

proof fn lemma_found_in_members(pairs: Seq<(Seq<char>, JsonTree)>, path: Seq<char>, n: nat)
    ensures
        all_sessions(sessions_in_members(pairs, path, n)),
    decreases pairs, n,
{
    if 0 < n <= pairs.len() {
        assert(decreases_to!(pairs => pairs[n - 1]));
        assert(decreases_to!(pairs[n - 1] => pairs[n - 1].1));
        let front = sessions_in_members(pairs, path, (n - 1) as nat);
        let back = sessions(pairs[n - 1].1, member_path(path, pairs[n - 1].0));
        lemma_found_in_members(pairs, path, (n - 1) as nat);
        what_is_found_is_a_session(pairs[n - 1].1, member_path(path, pairs[n - 1].0));
        lemma_both_found(front, back);
    }
}

proof fn lemma_found_in_items(items: Seq<JsonTree>, path: Seq<char>, n: nat)
    ensures
        all_sessions(sessions_in_items(items, path, n)),
    decreases items, n,
{
    if 0 < n <= items.len() {
        let front = sessions_in_items(items, path, (n - 1) as nat);
        let back = sessions(items[n - 1], item_path(path, n - 1));
        lemma_found_in_items(items, path, (n - 1) as nat);
        what_is_found_is_a_session(items[n - 1], item_path(path, n - 1));
        lemma_both_found(front, back);
    }
}

proof fn lemma_both_found(front: Seq<(Seq<char>, JsonTree)>, back: Seq<(Seq<char>, JsonTree)>)
    requires
        all_sessions(front),
        all_sessions(back),
    ensures
        all_sessions(front + back),
{
    let both = front + back;
    assert forall|i: int| 0 <= i < both.len() implies is_session((#[trigger] both[i]).1) by {
        if i < front.len() {
            assert(both[i] == front[i]);
        } else {
            assert(both[i] == back[i - front.len()]);
        }
    }
}

/// A session is found in itself, and nothing else is found in it.
pub proof fn session_is_found_in_itself(value: JsonTree, path: Seq<char>)
    requires
        is_session(value),
    ensures
        sessions(value, path) == seq![(path, value)],
{
}

/// What is found in an item of an array is found in the array.
pub proof fn session_in_an_item_is_found(
    items: Seq<JsonTree>,
    path: Seq<char>,
    i: int,
    found: (Seq<char>, JsonTree),
)
    requires
        0 <= i < items.len(),
        sessions(items[i], item_path(path, i)).contains(found),
    ensures
        sessions(JsonTree::Array(items), path).contains(found),
{
    let value = JsonTree::Array(items);
    assert(value->Array_0 == items);
    lemma_item_counts(items, path, items.len(), i, found);
}

/// What is found in a member of an object is found in the object, unless the
/// object is a session itself, or the member is named after a token.
pub proof fn session_in_a_member_is_found(
    pairs: Seq<(Seq<char>, JsonTree)>,
    path: Seq<char>,
    i: int,
    found: (Seq<char>, JsonTree),
)
    requires
        0 <= i < pairs.len(),
        !is_session(JsonTree::Object(pairs)),
        !is_token_name(pairs[i].0),
        sessions(pairs[i].1, member_path(path, pairs[i].0)).contains(found),
    ensures
        sessions(JsonTree::Object(pairs), path).contains(found),
{
    let value = JsonTree::Object(pairs);
    assert(value->Object_0 == pairs);
    lemma_member_counts(pairs, path, pairs.len(), i, found);
}

proof fn lemma_item_counts(
    items: Seq<JsonTree>,
    path: Seq<char>,
    n: nat,
    i: int,
    found: (Seq<char>, JsonTree),
)
    requires
        0 <= i < n <= items.len(),
        sessions(items[i], item_path(path, i)).contains(found),
    ensures
        sessions_in_items(items, path, n).contains(found),
    decreases n,
{
    let front = sessions_in_items(items, path, (n - 1) as nat);
    let back = sessions(items[n - 1], item_path(path, n - 1));
    if i < n - 1 {
        lemma_item_counts(items, path, (n - 1) as nat, i, found);
    }
    lemma_in_either(front, back, found);
}

proof fn lemma_member_counts(
    pairs: Seq<(Seq<char>, JsonTree)>,
    path: Seq<char>,
    n: nat,
    i: int,
    found: (Seq<char>, JsonTree),
)
    requires
        0 <= i < n <= pairs.len(),
        !is_token_name(pairs[i].0),
        sessions(pairs[i].1, member_path(path, pairs[i].0)).contains(found),
    ensures
        sessions_in_members(pairs, path, n).contains(found),
    decreases n,
{
    let front = sessions_in_members(pairs, path, (n - 1) as nat);
    let back = sessions(pairs[n - 1].1, member_path(path, pairs[n - 1].0));
    if i < n - 1 {
        lemma_member_counts(pairs, path, (n - 1) as nat, i, found);
    }
    lemma_in_either(front, back, found);
}

proof fn lemma_in_either(
    front: Seq<(Seq<char>, JsonTree)>,
    back: Seq<(Seq<char>, JsonTree)>,
    found: (Seq<char>, JsonTree),
)
    ensures
        front.contains(found) || back.contains(found) ==> (front + back).contains(found),
{
    let both = front + back;
    if front.contains(found) {
        let k = front.index_of(found);
        assert(both[k] == found);
    }
    if back.contains(found) {
        let k = back.index_of(found);
        assert(both[front.len() + k] == found);
    }
}

// ---------------------------------------------------------------------- tokens

/// The text that base64 gives to bytes, in the alphabet that is safe in URLs
/// and without padding.
pub uninterp spec fn base64_text(bytes: Seq<u8>) -> Seq<char>;

/// The bytes that such a text stands for, where it stands for any.
pub uninterp spec fn base64_bytes(text: Seq<char>) -> Option<Seq<u8>>;

/// The alphabet of base64 that is safe in URLs.
pub open spec fn in_base64_alphabet(c: char) -> bool {
    ('A' <= c <= 'Z') || ('a' <= c <= 'z') || ('0' <= c <= '9') || c == '-' || c == '_'
}

/// Calls `base64::Engine::encode` on `URL_SAFE_NO_PAD`. The text is a function
/// of the bytes alone, holds nothing but letters of the alphabet, and gives the
/// bytes back when it is decoded.
#[verifier::external_body]
fn b64url(bytes: &[u8]) -> (r: String)
    ensures
        r@ == base64_text(bytes@),
        forall|i: int| 0 <= i < r@.len() ==> in_base64_alphabet(#[trigger] r@[i]),
        base64_bytes(r@) == Some(bytes@),
{
    base64::Engine::encode(&base64::engine::general_purpose::URL_SAFE_NO_PAD, bytes)
}

/// Calls `base64::Engine::decode` on `URL_SAFE_NO_PAD`. The result is a
/// function of the text alone.
#[verifier::external_body]
fn b64url_decode(text: &str) -> (r: Option<Vec<u8>>)
    ensures
        match r {
            Some(bytes) => base64_bytes(text@) == Some(bytes@),
            None => base64_bytes(text@) is None,
        },
{
    base64::Engine::decode(&base64::engine::general_purpose::URL_SAFE_NO_PAD, text).ok()
}

/// The payload of a token of dotted parts: the document that its second part
/// holds in base64.
pub open spec fn jwt_payload(token: Seq<char>) -> Option<JsonTree> {
    let parts = crate::text::split_on(token, '.');
    if parts.len() < 2 {
        None
    } else {
        match base64_bytes(parts[1]) {
            Some(bytes) => match crate::json::json_document(bytes) {
                Ok(tree) => Some(tree),
                Err(_) => None,
            },
            None => None,
        }
    }
}

/// The payload of a token of dotted parts.
pub fn parse_jwt_payload(token: &str) -> (r: Option<Json>)
    ensures
        opt_payload(r) == jwt_payload(token@),
{
    let parts = split(token, '.');
    if parts.len() < 2 {
        return None;
    }
    assert(crate::text::texts(parts@)[1] == parts@[1]@);
    match b64url_decode(parts[1].as_str()) {
        Some(bytes) => match read_json(bytes.as_slice()) {
            Ok(tree) => Some(tree),
            Err(_) => None,
        },
        None => None,
    }
}

pub open spec fn opt_payload(o: Option<Json>) -> Option<JsonTree> {
    match o {
        Some(j) => Some(j@),
        None => None,
    }
}

/// The text under a name in a section of a payload.
pub open spec fn section_text(
    payload: Option<JsonTree>,
    section: Seq<char>,
    name: Seq<char>,
) -> Option<Seq<char>> {
    match payload {
        Some(p) => match p.get(section) {
            Some(s) => s.text_at(name),
            None => None,
        },
        None => None,
    }
}

/// The text under a name in a payload.
pub open spec fn payload_text(payload: Option<JsonTree>, name: Seq<char>) -> Option<Seq<char>> {
    match payload {
        Some(p) => p.text_at(name),
        None => None,
    }
}

fn openai_section(payload: &Option<Json>, section: &str, name: &str) -> (r: Option<String>)
    ensures
        crate::text::opt_text(r) == section_text(opt_payload(*payload), section@, name@),
{
    match payload {
        Some(p) => match p.get(section) {
            Some(s) => s.text_under(name),
            None => None,
        },
        None => None,
    }
}

fn text_of_payload(payload: &Option<Json>, name: &str) -> (r: Option<String>)
    ensures
        crate::text::opt_text(r) == payload_text(opt_payload(*payload), name@),
{
    match payload {
        Some(p) => p.text_under(name),
        None => None,
    }
}

// -------------------------------------------------------------------- identity

/// Whose a session is, and on which plan.
pub struct Identity {
    pub email: Option<String>,
    pub account_id: Option<String>,
    pub user_id: Option<String>,
    pub plan_type: Option<String>,
}

/// The e-mail address of a record, or that of its tokens.
pub open spec fn email_of(
    record: JsonTree,
    access: Option<JsonTree>,
    id: Option<JsonTree>,
) -> Option<Seq<char>> {
    crate::text::either(
        inner_text(record, "user"@, "email"@, "email"@),
        crate::text::either(
            some_text(record, "email"@),
            crate::text::either(
                inner_text(record, "credentials"@, "email"@, "email"@),
                crate::text::either(
                    inner_text(record, "providerSpecificData"@, "email"@, "email"@),
                    crate::text::either(
                        section_text(access, "https://api.openai.com/profile"@, "email"@),
                        crate::text::either(
                            payload_text(id, "email"@),
                            payload_text(access, "email"@),
                        ),
                    ),
                ),
            ),
        ),
    )
}

/// The account of a record, or that of its tokens.
pub open spec fn account_id_of(
    record: JsonTree,
    access: Option<JsonTree>,
    id: Option<JsonTree>,
) -> Option<Seq<char>> {
    crate::text::either(
        inner_text(record, "account"@, "id"@, "id"@),
        crate::text::either(
            first_text(record, "account_id"@, "chatgptAccountId"@),
            crate::text::either(
                inner_text(
                    record,
                    "providerSpecificData"@,
                    "chatgptAccountId"@,
                    "chatgpt_account_id"@,
                ),
                crate::text::either(
                    section_text(access, "https://api.openai.com/auth"@, "chatgpt_account_id"@),
                    section_text(id, "https://api.openai.com/auth"@, "chatgpt_account_id"@),
                ),
            ),
        ),
    )
}

/// The user of a record, or that of its access token.
pub open spec fn user_id_of(record: JsonTree, access: Option<JsonTree>) -> Option<Seq<char>> {
    crate::text::either(
        inner_text(record, "user"@, "id"@, "id"@),
        crate::text::either(
            first_text(record, "user_id"@, "chatgptUserId"@),
            crate::text::either(
                inner_text(
                    record,
                    "providerSpecificData"@,
                    "chatgptUserId"@,
                    "chatgpt_user_id"@,
                ),
                section_text(access, "https://api.openai.com/auth"@, "chatgpt_user_id"@),
            ),
        ),
    )
}

/// The plan of a record, or that of its access token.
pub open spec fn plan_type_of(record: JsonTree, access: Option<JsonTree>) -> Option<Seq<char>> {
    crate::text::either(
        inner_text(record, "account"@, "planType"@, "plan_type"@),
        crate::text::either(
            first_text(record, "planType"@, "plan_type"@),
            crate::text::either(
                inner_text(
                    record,
                    "providerSpecificData"@,
                    "chatgptPlanType"@,
                    "chatgpt_plan_type"@,
                ),
                section_text(access, "https://api.openai.com/auth"@, "chatgpt_plan_type"@),
            ),
        ),
    )
}

/// Whose a session is, from its record and from the payloads of its access
/// token and of its ID token.
pub fn read_identity(record: &Json, access: &Option<Json>, id: &Option<Json>) -> (r: Identity)
    ensures
        crate::text::opt_text(r.email) == email_of(record@, opt_payload(*access), opt_payload(*id)),
        crate::text::opt_text(r.account_id) == account_id_of(
            record@,
            opt_payload(*access),
            opt_payload(*id),
        ),
        crate::text::opt_text(r.user_id) == user_id_of(record@, opt_payload(*access)),
        crate::text::opt_text(r.plan_type) == plan_type_of(record@, opt_payload(*access)),
{
    let auth = "https://api.openai.com/auth";
    let data = "providerSpecificData";
    let email = or_text(
        nested_str(record, "user", "email", "email"),
        or_text(
            non_empty_str(record, "email"),
            or_text(
                nested_str(record, "credentials", "email", "email"),
                or_text(
                    nested_str(record, data, "email", "email"),
                    or_text(
                        openai_section(access, "https://api.openai.com/profile", "email"),
                        or_text(text_of_payload(id, "email"), text_of_payload(access, "email")),
                    ),
                ),
            ),
        ),
    );
    let account_id = or_text(
        nested_str(record, "account", "id", "id"),
        or_text(
            first_non_empty_str(record, "account_id", "chatgptAccountId"),
            or_text(
                nested_str(record, data, "chatgptAccountId", "chatgpt_account_id"),
                or_text(
                    openai_section(access, auth, "chatgpt_account_id"),
                    openai_section(id, auth, "chatgpt_account_id"),
                ),
            ),
        ),
    );
    let user_id = or_text(
        nested_str(record, "user", "id", "id"),
        or_text(
            first_non_empty_str(record, "user_id", "chatgptUserId"),
            or_text(
                nested_str(record, data, "chatgptUserId", "chatgpt_user_id"),
                openai_section(access, auth, "chatgpt_user_id"),
            ),
        ),
    );
    let plan_type = or_text(
        nested_str(record, "account", "planType", "plan_type"),
        or_text(
            first_non_empty_str(record, "planType", "plan_type"),
            or_text(
                nested_str(record, data, "chatgptPlanType", "chatgpt_plan_type"),
                openai_section(access, auth, "chatgpt_plan_type"),
            ),
        ),
    );
    Identity { email, account_id, user_id, plan_type }
}

// ---------------------------------------------------------------------- expiry

/// A point in time as this library writes it: in RFC 3339 and in UTC.
pub open spec fn written(t: Timestamp) -> Seq<char> {
    crate::clock::utc_rfc3339(t.secs as int, t.nanos as int)
}

/// The time that a text gives, as this library writes it. What is not in RFC
/// 3339 is read once more in the form that browsers write.
pub open spec fn iso_time(s: Seq<char>) -> Option<Seq<char>> {
    match crate::clock::rfc3339_time(s) {
        Some(t) => Some(written(t)),
        None => match crate::clock::naive_time(s, "%Y-%m-%dT%H:%M:%S%.fZ"@) {
            Some(t) => Some(written(t)),
            None => None,
        },
    }
}

/// The time under a name of the record.
pub open spec fn iso_at(record: JsonTree, name: Seq<char>) -> Option<Seq<char>> {
    match record.text_at(name) {
        Some(s) => iso_time(s),
        None => None,
    }
}

/// When the access token runs out, as its payload says.
pub open spec fn token_expiry(access: Option<JsonTree>) -> Option<Seq<char>> {
    match access {
        Some(p) => match p.int_at("exp"@) {
            Some(n) => if crate::clock::holds(n, 0) {
                Some(crate::clock::utc_rfc3339(n, 0))
            } else {
                None
            },
            None => None,
        },
        None => None,
    }
}

/// When a session runs out: as its access token says, or else as its record
/// does.
pub open spec fn expiry(record: JsonTree, access: Option<JsonTree>) -> Option<Seq<char>> {
    crate::text::either(
        token_expiry(access),
        crate::text::either(
            iso_at(record, "expires"@),
            crate::text::either(
                iso_at(record, "expiresAt"@),
                crate::text::either(iso_at(record, "expired"@), iso_at(record, "expires_at"@)),
            ),
        ),
    )
}

/// The time that a text gives, as this library writes it.
pub fn parse_to_iso(s: &str) -> (r: Option<String>)
    ensures
        crate::text::opt_text(r) == iso_time(s@),
{
    match parse_rfc3339(s) {
        Some(t) => utc_text(t.secs, t.nanos),
        None => match parse_naive(s, "%Y-%m-%dT%H:%M:%S%.fZ") {
            Some(t) => utc_text(t.secs, t.nanos),
            None => None,
        },
    }
}

fn time_under(record: &Json, name: &str) -> (r: Option<String>)
    ensures
        crate::text::opt_text(r) == iso_at(record@, name@),
{
    match record.text_under(name) {
        Some(s) => parse_to_iso(s.as_str()),
        None => None,
    }
}

/// When a session runs out.
pub fn read_expiry(record: &Json, access: &Option<Json>) -> (r: Option<String>)
    ensures
        crate::text::opt_text(r) == expiry(record@, opt_payload(*access)),
{
    let said = match access {
        Some(p) => match p.int_under("exp") {
            Some(n) => utc_text(n, 0),
            None => None,
        },
        None => None,
    };
    or_text(
        said,
        or_text(
            time_under(record, "expires"),
            or_text(
                time_under(record, "expiresAt"),
                or_text(time_under(record, "expired"), time_under(record, "expires_at")),
            ),
        ),
    )
}

// ------------------------------------------------------------- made-up ID token

/// How long a made-up token lasts where nothing says when it ends: 90 days.
pub const SYNTHETIC_LIFETIME: i64 = 7_776_000;

/// `pairs` with a text under `name`, where there is one.
pub open spec fn with_text(
    pairs: Seq<(Seq<char>, JsonTree)>,
    name: Seq<char>,
    text: Option<Seq<char>>,
) -> Seq<(Seq<char>, JsonTree)> {
    match text {
        Some(t) => crate::json::with_member(pairs, name, JsonTree::Text(t)),
        None => pairs,
    }
}

/// The header of a made-up token.
pub open spec fn synthetic_header() -> JsonTree {
    let a = with_text(Seq::empty(), "alg"@, Some("none"@));
    let b = with_text(a, "typ"@, Some("JWT"@));
    JsonTree::Object(crate::json::with_member(b, "cpa_synthetic"@, JsonTree::Bool(true)))
}

/// What a made-up token says of the account.
pub open spec fn auth_claims(
    account_id: Seq<char>,
    plan_type: Option<Seq<char>>,
    user_id: Option<Seq<char>>,
) -> JsonTree {
    let a = with_text(Seq::empty(), "chatgpt_account_id"@, Some(account_id));
    let b = with_text(a, "chatgpt_plan_type"@, plan_type);
    let c = with_text(b, "chatgpt_user_id"@, user_id);
    JsonTree::Object(with_text(c, "user_id"@, user_id))
}

/// What a made-up token says in all.
pub open spec fn synthetic_claims(
    email: Option<Seq<char>>,
    account_id: Seq<char>,
    plan_type: Option<Seq<char>>,
    user_id: Option<Seq<char>>,
    issued: int,
    ends: int,
) -> JsonTree {
    let a = crate::json::with_member(Seq::empty(), "iat"@, JsonTree::Int(issued));
    let b = crate::json::with_member(a, "exp"@, JsonTree::Int(ends));
    let c = crate::json::with_member(
        b,
        "https://api.openai.com/auth"@,
        auth_claims(account_id, plan_type, user_id),
    );
    JsonTree::Object(with_text(c, "email"@, email))
}

/// When a made-up token ends: when the session does, or else some time from
/// now.
pub open spec fn synthetic_end(expires_at: Option<Seq<char>>, now: int) -> int {
    match expires_at {
        Some(s) => match crate::clock::rfc3339_time(s) {
            Some(t) => t.secs as int,
            None => now + SYNTHETIC_LIFETIME,
        },
        None => now + SYNTHETIC_LIFETIME,
    }
}

/// The token that says `claims`.
pub open spec fn synthetic_token(claims: JsonTree) -> Seq<char> {
    base64_text(crate::json::json_bytes(synthetic_header())) + "."@ + base64_text(
        crate::json::json_bytes(claims),
    ) + ".synthetic"@
}

fn insert_text(v: &mut serde_json::Value, name: &str, text: Option<&str>)
    requires
        crate::json::value_tree(*old(v)) is Object,
    ensures
        crate::json::value_tree(*final(v)) == JsonTree::Object(
            with_text(
                crate::json::value_tree(*old(v))->Object_0,
                name@,
                crate::text::opt_str(text),
            ),
        ),
{
    match text {
        Some(t) => insert_value(v, name, text_value(t)),
        None => {},
    }
}

proof fn lemma_with_text_readable(
    pairs: Seq<(Seq<char>, JsonTree)>,
    name: Seq<char>,
    text: Option<Seq<char>>,
    depth: nat,
)
    requires
        crate::json::shaped(JsonTree::Object(pairs), depth),
        crate::json::integral(JsonTree::Object(pairs)),
        depth > 0,
    ensures
        crate::json::shaped(JsonTree::Object(with_text(pairs, name, text)), depth),
        crate::json::integral(JsonTree::Object(with_text(pairs, name, text))),
{
    if let Some(t) = text {
        lemma_with_member_readable(pairs, name, JsonTree::Text(t), depth);
    }
}

proof fn lemma_with_member_readable(
    pairs: Seq<(Seq<char>, JsonTree)>,
    name: Seq<char>,
    value: JsonTree,
    depth: nat,
)
    requires
        crate::json::shaped(JsonTree::Object(pairs), depth),
        crate::json::integral(JsonTree::Object(pairs)),
        depth > 0,
        crate::json::shaped(value, (depth - 1) as nat),
        crate::json::integral(value),
    ensures
        crate::json::shaped(JsonTree::Object(crate::json::with_member(pairs, name, value)), depth),
        crate::json::integral(JsonTree::Object(crate::json::with_member(pairs, name, value))),
{
    crate::json::shaped_object_stays_shaped(pairs, name, value, depth);
    crate::json::integral_object_stays_integral(pairs, name, value);
}

/// What a made-up token says can be read back from its text.
proof fn lemma_claims_readable(
    email: Option<Seq<char>>,
    account_id: Seq<char>,
    plan_type: Option<Seq<char>>,
    user_id: Option<Seq<char>>,
    issued: int,
    ends: int,
)
    requires
        i64::MIN <= issued <= i64::MAX,
        i64::MIN <= ends <= i64::MAX,
    ensures
        ({
            let claims = synthetic_claims(email, account_id, plan_type, user_id, issued, ends);
            crate::json::shaped(claims, crate::json::MOST_LEVELS as nat) && crate::json::integral(
                claims,
            )
        }),
{
    let none = Seq::<(Seq<char>, JsonTree)>::empty();
    crate::json::lemma_shaped_object(none, 126);
    crate::json::lemma_integral_object(none);
    let a = with_text(none, "chatgpt_account_id"@, Some(account_id));
    lemma_with_text_readable(none, "chatgpt_account_id"@, Some(account_id), 126);
    let b = with_text(a, "chatgpt_plan_type"@, plan_type);
    lemma_with_text_readable(a, "chatgpt_plan_type"@, plan_type, 126);
    let c = with_text(b, "chatgpt_user_id"@, user_id);
    lemma_with_text_readable(b, "chatgpt_user_id"@, user_id, 126);
    lemma_with_text_readable(c, "user_id"@, user_id, 126);
    crate::json::lemma_shaped_object(none, 127);
    let d = crate::json::with_member(none, "iat"@, JsonTree::Int(issued));
    lemma_with_member_readable(none, "iat"@, JsonTree::Int(issued), 127);
    let e = crate::json::with_member(d, "exp"@, JsonTree::Int(ends));
    lemma_with_member_readable(d, "exp"@, JsonTree::Int(ends), 127);
    let auth = auth_claims(account_id, plan_type, user_id);
    let f = crate::json::with_member(e, "https://api.openai.com/auth"@, auth);
    lemma_with_member_readable(e, "https://api.openai.com/auth"@, auth, 127);
    lemma_with_text_readable(f, "email"@, email, 127);
}

/// Three parts without dots, with dots between them, are split into those parts.
proof fn lemma_three_parts(first: Seq<char>, second: Seq<char>, third: Seq<char>)
    requires
        !first.contains('.'),
        !second.contains('.'),
        !third.contains('.'),
    ensures
        crate::text::split_on(first + "."@ + second + "."@ + third, '.') == seq![
            first,
            second,
            third,
        ],
{
    reveal_strlit(".");
    let token = first + "."@ + second + "."@ + third;
    let rest = second + "."@ + third;
    crate::text::lemma_first_index(token, '.');
    crate::text::lemma_first_index(rest, '.');
    assert(token[first.len() as int] == '.');
    assert(rest[second.len() as int] == '.');
    assert(forall|i: int| 0 <= i < first.len() ==> token[i] == first[i]);
    assert(forall|i: int| 0 <= i < second.len() ==> rest[i] == second[i]);
    assert(crate::text::before(token, '.') =~= first);
    assert(crate::text::behind(token, '.') =~= rest);
    assert(crate::text::before(rest, '.') =~= second);
    assert(crate::text::behind(rest, '.') =~= third);
    assert(crate::text::split_on(third, '.') == seq![third]);
    assert(crate::text::split_on(rest, '.') == seq![second] + seq![third]);
    assert(crate::text::split_on(token, '.') =~= seq![first, second, third]);
}

/// Whether a token is the made-up one that says `claims`: of its three dotted
/// parts the last marks it as made up, and its payload reads back.
pub open spec fn is_made_up(token: Seq<char>, claims: JsonTree) -> bool {
    let parts = crate::text::split_on(token, '.');
    &&& token == synthetic_token(claims)
    &&& parts.len() == 3 && parts[2] == "synthetic"@
    &&& jwt_payload(token) == Some(claims)
}

/// Makes up an ID token for a session that brings none, as of the second
/// `now`. Its payload can be read back, and says just what it was given.
pub fn build_synthetic_id_token_at(
    email: Option<&str>,
    account_id: &str,
    plan_type: Option<&str>,
    user_id: Option<&str>,
    expires_at: Option<&str>,
    now: i64,
) -> (r: String)
    requires
        now <= LAST_SECOND,
    ensures
        ({
            let claims = synthetic_claims(
                crate::text::opt_str(email),
                account_id@,
                crate::text::opt_str(plan_type),
                crate::text::opt_str(user_id),
                now as int,
                synthetic_end(crate::text::opt_str(expires_at), now as int),
            );
            is_made_up(r@, claims)
        }),
{
    let ends: i64 = match expires_at {
        Some(s) => match parse_rfc3339(s) {
            Some(t) => t.secs,
            None => now + SYNTHETIC_LIFETIME,
        },
        None => now + SYNTHETIC_LIFETIME,
    };
    let mut auth = object_value();
    insert_text(&mut auth, "chatgpt_account_id", Some(account_id));
    insert_text(&mut auth, "chatgpt_plan_type", plan_type);
    insert_text(&mut auth, "chatgpt_user_id", user_id);
    insert_text(&mut auth, "user_id", user_id);
    let mut payload = object_value();
    insert_value(&mut payload, "iat", int_value(now));
    insert_value(&mut payload, "exp", int_value(ends));
    insert_value(&mut payload, "https://api.openai.com/auth", auth);
    insert_text(&mut payload, "email", email);
    let mut header = object_value();
    insert_text(&mut header, "alg", Some("none"));
    insert_text(&mut header, "typ", Some("JWT"));
    insert_value(&mut header, "cpa_synthetic", flag_value(true));
    let ghost claims = crate::json::value_tree(payload);
    proof {
        lemma_claims_readable(
            crate::text::opt_str(email),
            account_id@,
            crate::text::opt_str(plan_type),
            crate::text::opt_str(user_id),
            now as int,
            ends as int,
        );
    }
    let head = bytes_text(&header);
    let body = bytes_text(&payload);
    let out = joined3(joined3(head.as_str(), ".", body.as_str()).as_str(), ".", "synthetic");
    proof {
        reveal_strlit(".synthetic");
        reveal_strlit("synthetic");
        lemma_three_parts(head@, body@, "synthetic"@);
        reveal_strlit(".");
        assert("."@ + "synthetic"@ =~= ".synthetic"@);
        assert(out@ =~= synthetic_token(claims));
    }
    out
}

/// The text of a document in base64. It holds no dot, and the document can be
/// read back from it where its text can be.
fn bytes_text(v: &serde_json::Value) -> (r: String)
    ensures
        r@ == base64_text(crate::json::json_bytes(crate::json::value_tree(*v))),
        !r@.contains('.'),
        crate::json::shaped(crate::json::value_tree(*v), crate::json::MOST_LEVELS as nat)
            && crate::json::integral(crate::json::value_tree(*v)) ==> base64_bytes(r@) is Some
            && crate::json::reads_as(base64_bytes(r@)->Some_0, crate::json::value_tree(*v)),
{
    match value_bytes(v) {
        Some(bytes) => b64url(bytes.as_slice()),
        None => String::new(),
    }
}

/// Makes up an ID token for a session that brings none, as of now.
pub fn build_synthetic_id_token(
    email: Option<&str>,
    account_id: &str,
    plan_type: Option<&str>,
    user_id: Option<&str>,
    expires_at: Option<&str>,
) -> (r: String)
    ensures
        exists|now: int|
            0 <= now <= LAST_SECOND && {
                let claims = #[trigger] synthetic_claims(
                    crate::text::opt_str(email),
                    account_id@,
                    crate::text::opt_str(plan_type),
                    crate::text::opt_str(user_id),
                    now,
                    synthetic_end(crate::text::opt_str(expires_at), now),
                );
                is_made_up(r@, claims)
            },
{
    let now = utc_now();
    build_synthetic_id_token_at(email, account_id, plan_type, user_id, expires_at, now.secs)
}

// ------------------------------------------------------------------ conversion

/// What was learnt of an imported session.
#[derive(Clone, Debug)]
pub struct ImportedSessionInfo {
    pub email: Option<String>,
    pub plan_type: Option<String>,
    pub account_id: Option<String>,
    pub expires_at: Option<String>,
    pub has_refresh_token: bool,
    pub id_token_synthetic: bool,
}

/// What an `ImportedSessionInfo` says.
pub ghost struct SessionInfo {
    pub email: Option<Seq<char>>,
    pub plan_type: Option<Seq<char>>,
    pub account_id: Option<Seq<char>>,
    pub expires_at: Option<Seq<char>>,
    pub has_refresh_token: bool,
    pub id_token_synthetic: bool,
}

impl View for ImportedSessionInfo {
    type V = SessionInfo;

    open spec fn view(&self) -> SessionInfo {
        SessionInfo {
            email: crate::text::opt_text(self.email),
            plan_type: crate::text::opt_text(self.plan_type),
            account_id: crate::text::opt_text(self.account_id),
            expires_at: crate::text::opt_text(self.expires_at),
            has_refresh_token: self.has_refresh_token,
            id_token_synthetic: self.id_token_synthetic,
        }
    }
}

/// The tokens of a session, as they go into its document.
pub struct SessionTokens {
    pub access_token: String,
    pub refresh_token: Option<String>,
    pub id_token: Option<String>,
    pub account_id: Option<String>,
    pub session_token: Option<String>,
    pub expires_at: Option<String>,
}

/// The members of the document under `tokens`. A missing refresh token stands
/// there as an empty text, the others not at all.
pub open spec fn token_members(
    access_token: Seq<char>,
    refresh_token: Option<Seq<char>>,
    id_token: Option<Seq<char>>,
    account_id: Option<Seq<char>>,
    session_token: Option<Seq<char>>,
    expires_at: Option<Seq<char>>,
) -> Seq<(Seq<char>, JsonTree)> {
    let a = with_text(Seq::empty(), "access_token"@, Some(access_token));
    let b = with_text(a, "refresh_token"@, crate::text::either(refresh_token, Some(""@)));
    let c = with_text(b, "id_token"@, id_token);
    let d = with_text(c, "account_id"@, account_id);
    let e = with_text(d, "session_token"@, session_token);
    with_text(e, "expires_at"@, expires_at)
}

/// The document that an account is logged in with.
pub open spec fn auth_members(
    tokens: Seq<(Seq<char>, JsonTree)>,
    last_refresh: Seq<char>,
    refreshable: bool,
) -> Seq<(Seq<char>, JsonTree)> {
    let a = crate::json::with_member(Seq::empty(), "tokens"@, JsonTree::Object(tokens));
    let b = with_text(a, "last_refresh"@, Some(last_refresh));
    let c = with_text(b, "auth_mode"@, Some("chatgpt"@));
    let d = with_text(c, "source"@, Some("chatgpt_web_session"@));
    if refreshable {
        d
    } else {
        crate::json::with_member(d, "session_import_no_refresh"@, JsonTree::Bool(true))
    }
}

proof fn lemma_with_text_found(
    pairs: Seq<(Seq<char>, JsonTree)>,
    name: Seq<char>,
    text: Option<Seq<char>>,
    other: Seq<char>,
)
    ensures
        text is Some ==> crate::json::member(with_text(pairs, name, text), name) == Some(
            JsonTree::Text(text->Some_0),
        ),
        text is None || other != name ==> crate::json::member(
            with_text(pairs, name, text),
            other,
        ) == crate::json::member(pairs, other),
{
    if let Some(t) = text {
        crate::json::member_put_in_is_found(pairs, name, JsonTree::Text(t), other);
    }
}

/// What a made-up token says can be read in it: whose it is, and when it was
/// made and ends.
pub proof fn claims_say_whose_they_are(
    email: Option<Seq<char>>,
    account_id: Seq<char>,
    plan_type: Option<Seq<char>>,
    user_id: Option<Seq<char>>,
    issued: int,
    ends: int,
)
    ensures
        ({
            let claims = synthetic_claims(email, account_id, plan_type, user_id, issued, ends);
            let auth = "https://api.openai.com/auth"@;
            &&& section_text(Some(claims), auth, "chatgpt_account_id"@) == Some(account_id)
            &&& section_text(Some(claims), auth, "chatgpt_plan_type"@) == plan_type
            &&& section_text(Some(claims), auth, "chatgpt_user_id"@) == user_id
            &&& section_text(Some(claims), auth, "user_id"@) == user_id
            &&& payload_text(Some(claims), "email"@) == email
            &&& claims.get_in(auth, "chatgpt_plan_type"@) is Some <==> plan_type is Some
            &&& claims.get_in(auth, "chatgpt_user_id"@) is Some <==> user_id is Some
            &&& claims.get("email"@) is Some <==> email is Some
            &&& claims.int_at("iat"@) == Some(issued)
            &&& claims.int_at("exp"@) == Some(ends)
        }),
{
    reveal_strlit("chatgpt_account_id");
    reveal_strlit("chatgpt_plan_type");
    reveal_strlit("chatgpt_user_id");
    reveal_strlit("user_id");
    reveal_strlit("iat");
    reveal_strlit("exp");
    reveal_strlit("https://api.openai.com/auth");
    reveal_strlit("email");
    assert("iat"@[0] == 'i' && "exp"@[0] == 'e');
    assert("chatgpt_account_id"@.len() == 18 && "chatgpt_plan_type"@.len() == 17);
    assert("chatgpt_user_id"@.len() == 15 && "user_id"@.len() == 7);
    assert("email"@.len() == 5 && "exp"@.len() == 3);
    let site = "https://api.openai.com/auth"@;
    let none = Seq::<(Seq<char>, JsonTree)>::empty();
    let a = with_text(none, "chatgpt_account_id"@, Some(account_id));
    lemma_with_text_found(none, "chatgpt_account_id"@, Some(account_id), "chatgpt_plan_type"@);
    lemma_with_text_found(none, "chatgpt_account_id"@, Some(account_id), "chatgpt_user_id"@);
    lemma_with_text_found(none, "chatgpt_account_id"@, Some(account_id), "user_id"@);
    let b = with_text(a, "chatgpt_plan_type"@, plan_type);
    lemma_with_text_found(a, "chatgpt_plan_type"@, plan_type, "chatgpt_account_id"@);
    lemma_with_text_found(a, "chatgpt_plan_type"@, plan_type, "chatgpt_user_id"@);
    lemma_with_text_found(a, "chatgpt_plan_type"@, plan_type, "user_id"@);
    let c = with_text(b, "chatgpt_user_id"@, user_id);
    lemma_with_text_found(b, "chatgpt_user_id"@, user_id, "chatgpt_account_id"@);
    lemma_with_text_found(b, "chatgpt_user_id"@, user_id, "chatgpt_plan_type"@);
    lemma_with_text_found(b, "chatgpt_user_id"@, user_id, "user_id"@);
    let d = with_text(c, "user_id"@, user_id);
    lemma_with_text_found(c, "user_id"@, user_id, "chatgpt_account_id"@);
    lemma_with_text_found(c, "user_id"@, user_id, "chatgpt_plan_type"@);
    lemma_with_text_found(c, "user_id"@, user_id, "chatgpt_user_id"@);
    let auth = JsonTree::Object(d);
    assert(auth->Object_0 == d);
    let e = crate::json::with_member(none, "iat"@, JsonTree::Int(issued));
    let f = crate::json::with_member(e, "exp"@, JsonTree::Int(ends));
    let g = crate::json::with_member(f, site, auth);
    let h = with_text(g, "email"@, email);
    crate::json::member_put_in_is_found(none, "iat"@, JsonTree::Int(issued), "exp"@);
    crate::json::member_put_in_is_found(none, "iat"@, JsonTree::Int(issued), site);
    crate::json::member_put_in_is_found(none, "iat"@, JsonTree::Int(issued), "email"@);
    crate::json::member_put_in_is_found(e, "exp"@, JsonTree::Int(ends), "iat"@);
    crate::json::member_put_in_is_found(e, "exp"@, JsonTree::Int(ends), site);
    crate::json::member_put_in_is_found(e, "exp"@, JsonTree::Int(ends), "email"@);
    crate::json::member_put_in_is_found(f, site, auth, "iat"@);
    crate::json::member_put_in_is_found(f, site, auth, "exp"@);
    crate::json::member_put_in_is_found(f, site, auth, "email"@);
    lemma_with_text_found(g, "email"@, email, "iat"@);
    lemma_with_text_found(g, "email"@, email, "exp"@);
    lemma_with_text_found(g, "email"@, email, site);
    let claims = JsonTree::Object(h);
    assert(claims->Object_0 == h);
}

/// A token is read back from the members under `tokens` as it was given, a
/// missing refresh token as an empty text, and another missing one not at all.
pub proof fn tokens_are_read_back(
    access_token: Seq<char>,
    refresh_token: Option<Seq<char>>,
    id_token: Option<Seq<char>>,
    account_id: Option<Seq<char>>,
    session_token: Option<Seq<char>>,
    expires_at: Option<Seq<char>>,
)
    ensures
        ({
            let tokens = JsonTree::Object(
                token_members(
                    access_token,
                    refresh_token,
                    id_token,
                    account_id,
                    session_token,
                    expires_at,
                ),
            );
            &&& tokens.text_at("access_token"@) == Some(access_token)
            &&& tokens.text_at("refresh_token"@) == crate::text::either(refresh_token, Some(""@))
            &&& tokens.text_at("id_token"@) == id_token
            &&& tokens.text_at("account_id"@) == account_id
            &&& tokens.text_at("session_token"@) == session_token
            &&& tokens.text_at("expires_at"@) == expires_at
        }),
{
    reveal_strlit("access_token");
    reveal_strlit("refresh_token");
    reveal_strlit("id_token");
    reveal_strlit("account_id");
    reveal_strlit("session_token");
    reveal_strlit("expires_at");
    assert("refresh_token"@[0] == 'r' && "session_token"@[0] == 's');
    assert("account_id"@[0] == 'a' && "expires_at"@[0] == 'e');
    let refresh = crate::text::either(refresh_token, Some(""@));
    let none = Seq::<(Seq<char>, JsonTree)>::empty();
    let a = with_text(none, "access_token"@, Some(access_token));
    lemma_with_text_found(none, "access_token"@, Some(access_token), "refresh_token"@);
    lemma_with_text_found(none, "access_token"@, Some(access_token), "id_token"@);
    lemma_with_text_found(none, "access_token"@, Some(access_token), "account_id"@);
    lemma_with_text_found(none, "access_token"@, Some(access_token), "session_token"@);
    lemma_with_text_found(none, "access_token"@, Some(access_token), "expires_at"@);
    let b = with_text(a, "refresh_token"@, refresh);
    lemma_with_text_found(a, "refresh_token"@, refresh, "access_token"@);
    lemma_with_text_found(a, "refresh_token"@, refresh, "id_token"@);
    lemma_with_text_found(a, "refresh_token"@, refresh, "account_id"@);
    lemma_with_text_found(a, "refresh_token"@, refresh, "session_token"@);
    lemma_with_text_found(a, "refresh_token"@, refresh, "expires_at"@);
    let c = with_text(b, "id_token"@, id_token);
    lemma_with_text_found(b, "id_token"@, id_token, "access_token"@);
    lemma_with_text_found(b, "id_token"@, id_token, "refresh_token"@);
    lemma_with_text_found(b, "id_token"@, id_token, "account_id"@);
    lemma_with_text_found(b, "id_token"@, id_token, "session_token"@);
    lemma_with_text_found(b, "id_token"@, id_token, "expires_at"@);
    let d = with_text(c, "account_id"@, account_id);
    lemma_with_text_found(c, "account_id"@, account_id, "access_token"@);
    lemma_with_text_found(c, "account_id"@, account_id, "refresh_token"@);
    lemma_with_text_found(c, "account_id"@, account_id, "id_token"@);
    lemma_with_text_found(c, "account_id"@, account_id, "session_token"@);
    lemma_with_text_found(c, "account_id"@, account_id, "expires_at"@);
    let e = with_text(d, "session_token"@, session_token);
    lemma_with_text_found(d, "session_token"@, session_token, "access_token"@);
    lemma_with_text_found(d, "session_token"@, session_token, "refresh_token"@);
    lemma_with_text_found(d, "session_token"@, session_token, "id_token"@);
    lemma_with_text_found(d, "session_token"@, session_token, "account_id"@);
    lemma_with_text_found(d, "session_token"@, session_token, "expires_at"@);
    let f = with_text(e, "expires_at"@, expires_at);
    lemma_with_text_found(e, "expires_at"@, expires_at, "access_token"@);
    lemma_with_text_found(e, "expires_at"@, expires_at, "refresh_token"@);
    lemma_with_text_found(e, "expires_at"@, expires_at, "id_token"@);
    lemma_with_text_found(e, "expires_at"@, expires_at, "account_id"@);
    lemma_with_text_found(e, "expires_at"@, expires_at, "session_token"@);
    let tokens = JsonTree::Object(f);
    assert(tokens->Object_0 == f);
}

/// The document of an imported session holds its tokens, says how it was logged
/// in, and is marked where it cannot be refreshed.
pub proof fn document_holds_its_tokens(
    tokens: Seq<(Seq<char>, JsonTree)>,
    last_refresh: Seq<char>,
    refreshable: bool,
)
    ensures
        ({
            let doc = JsonTree::Object(auth_members(tokens, last_refresh, refreshable));
            &&& doc.get("tokens"@) == Some(JsonTree::Object(tokens))
            &&& doc.text_at("last_refresh"@) == Some(last_refresh)
            &&& doc.text_at("auth_mode"@) == Some("chatgpt"@)
            &&& doc.text_at("source"@) == Some("chatgpt_web_session"@)
            &&& doc.get("session_import_no_refresh"@) == if refreshable {
                None
            } else {
                Some(JsonTree::Bool(true))
            }
        }),
{
    reveal_strlit("tokens");
    reveal_strlit("last_refresh");
    reveal_strlit("auth_mode");
    reveal_strlit("source");
    reveal_strlit("session_import_no_refresh");
    assert("tokens"@[0] == 't' && "source"@[0] == 's');
    let none = Seq::<(Seq<char>, JsonTree)>::empty();
    let held = JsonTree::Object(tokens);
    let a = crate::json::with_member(none, "tokens"@, held);
    crate::json::member_put_in_is_found(none, "tokens"@, held, "last_refresh"@);
    crate::json::member_put_in_is_found(none, "tokens"@, held, "auth_mode"@);
    crate::json::member_put_in_is_found(none, "tokens"@, held, "source"@);
    crate::json::member_put_in_is_found(none, "tokens"@, held, "session_import_no_refresh"@);
    let b = with_text(a, "last_refresh"@, Some(last_refresh));
    lemma_with_text_found(a, "last_refresh"@, Some(last_refresh), "tokens"@);
    lemma_with_text_found(a, "last_refresh"@, Some(last_refresh), "auth_mode"@);
    lemma_with_text_found(a, "last_refresh"@, Some(last_refresh), "source"@);
    lemma_with_text_found(a, "last_refresh"@, Some(last_refresh), "session_import_no_refresh"@);
    let c = with_text(b, "auth_mode"@, Some("chatgpt"@));
    lemma_with_text_found(b, "auth_mode"@, Some("chatgpt"@), "tokens"@);
    lemma_with_text_found(b, "auth_mode"@, Some("chatgpt"@), "last_refresh"@);
    lemma_with_text_found(b, "auth_mode"@, Some("chatgpt"@), "source"@);
    lemma_with_text_found(b, "auth_mode"@, Some("chatgpt"@), "session_import_no_refresh"@);
    let d = with_text(c, "source"@, Some("chatgpt_web_session"@));
    lemma_with_text_found(c, "source"@, Some("chatgpt_web_session"@), "tokens"@);
    lemma_with_text_found(c, "source"@, Some("chatgpt_web_session"@), "last_refresh"@);
    lemma_with_text_found(c, "source"@, Some("chatgpt_web_session"@), "auth_mode"@);
    lemma_with_text_found(c, "source"@, Some("chatgpt_web_session"@), "session_import_no_refresh"@);
    let mark = JsonTree::Bool(true);
    crate::json::member_put_in_is_found(d, "session_import_no_refresh"@, mark, "tokens"@);
    crate::json::member_put_in_is_found(d, "session_import_no_refresh"@, mark, "last_refresh"@);
    crate::json::member_put_in_is_found(d, "session_import_no_refresh"@, mark, "auth_mode"@);
    crate::json::member_put_in_is_found(d, "session_import_no_refresh"@, mark, "source"@);
    let doc = JsonTree::Object(auth_members(tokens, last_refresh, refreshable));
    assert(doc->Object_0 == auth_members(tokens, last_refresh, refreshable));
}

fn put_text(pairs: &mut Vec<(String, Json)>, name: &str, text: &Option<String>)
    ensures
        crate::json::members(final(pairs)@) == with_text(
            crate::json::members(old(pairs)@),
            name@,
            crate::text::opt_text(*text),
        ),
{
    match text {
        Some(t) => put_member(pairs, name, Json::Text(t.clone())),
        None => {},
    }
}

/// Writes the document that an account is logged in with.
pub fn auth_document(tokens: &SessionTokens, last_refresh: &str) -> (r: Json)
    ensures
        r@ == JsonTree::Object(
            auth_members(
                token_members(
                    tokens.access_token@,
                    crate::text::opt_text(tokens.refresh_token),
                    crate::text::opt_text(tokens.id_token),
                    crate::text::opt_text(tokens.account_id),
                    crate::text::opt_text(tokens.session_token),
                    crate::text::opt_text(tokens.expires_at),
                ),
                last_refresh@,
                tokens.refresh_token is Some,
            ),
        ),
{
    let mut inner: Vec<(String, Json)> = Vec::new();
    assert(crate::json::members(inner@) =~= Seq::<(Seq<char>, JsonTree)>::empty());
    put_text(&mut inner, "access_token", &Some(tokens.access_token.clone()));
    put_text(
        &mut inner,
        "refresh_token",
        &or_text(copy_opt(&tokens.refresh_token), Some("".to_owned())),
    );
    put_text(&mut inner, "id_token", &tokens.id_token);
    put_text(&mut inner, "account_id", &tokens.account_id);
    put_text(&mut inner, "session_token", &tokens.session_token);
    put_text(&mut inner, "expires_at", &tokens.expires_at);
    let mut outer: Vec<(String, Json)> = Vec::new();
    assert(crate::json::members(outer@) =~= Seq::<(Seq<char>, JsonTree)>::empty());
    put_member(&mut outer, "tokens", Json::Object(inner));
    put_text(&mut outer, "last_refresh", &Some(last_refresh.to_owned()));
    put_text(&mut outer, "auth_mode", &Some("chatgpt".to_owned()));
    put_text(&mut outer, "source", &Some("chatgpt_web_session".to_owned()));
    if tokens.refresh_token.is_none() {
        put_member(&mut outer, "session_import_no_refresh", Json::Bool(true));
    }
    Json::Object(outer)
}

/// A session made into an account: the document to log in with, what was
/// learnt, and the name that the account gets.
pub ghost struct Converted {
    pub auth: JsonTree,
    pub info: SessionInfo,
    pub name: Seq<char>,
}

/// When the tokens of a session were last refreshed, as far as anybody can
/// tell: an hour before they run out, or else now.
pub open spec fn last_refresh_of(expires_at: Option<Seq<char>>, now: Timestamp) -> Seq<char> {
    match expires_at {
        Some(s) => match crate::clock::rfc3339_moved_back(s, 1) {
            Some(t) => t,
            None => written(now),
        },
        None => written(now),
    }
}

/// What the made-up ID token of a record says, where the record brings none and
/// names an account.
pub open spec fn made_up_claims(
    record: JsonTree,
    access: Option<JsonTree>,
    id: Option<JsonTree>,
    expires_at: Option<Seq<char>>,
    now: Timestamp,
) -> Option<JsonTree> {
    match account_id_of(record, access, id) {
        Some(account_id) => if id_token(record) is None {
            Some(
                synthetic_claims(
                    email_of(record, access, id),
                    account_id,
                    plan_type_of(record, access),
                    user_id_of(record, access),
                    now.secs as int,
                    synthetic_end(expires_at, now.secs as int),
                ),
            )
        } else {
            None
        },
        None => None,
    }
}

/// Whether what goes into the document of a record reads as it is meant: a
/// made-up token as its claims, and the last refresh as an hour before the
/// session runs out.
pub open spec fn reads_as_meant(
    record: JsonTree,
    access: Option<JsonTree>,
    id: Option<JsonTree>,
    expires_at: Option<Seq<char>>,
    now: Timestamp,
) -> bool {
    &&& match made_up_claims(record, access, id, expires_at, now) {
        Some(claims) => is_made_up(synthetic_token(claims), claims),
        None => true,
    }
    &&& expires_at is Some && crate::clock::rfc3339_time(expires_at->Some_0) is Some
        ==> crate::clock::written_back(
        expires_at->Some_0,
        1,
        last_refresh_of(expires_at, now),
    )
}

/// What a record with an access token is made into, with the payloads of its
/// tokens, the time when it runs out, and the present time.
pub open spec fn conversion(
    record: JsonTree,
    access: Option<JsonTree>,
    id: Option<JsonTree>,
    expires_at: Option<Seq<char>>,
    now: Timestamp,
) -> Converted {
    let email = email_of(record, access, id);
    let account_id = account_id_of(record, access, id);
    let plan_type = plan_type_of(record, access);
    let synthetic = match made_up_claims(record, access, id, expires_at, now) {
        Some(claims) => Some(synthetic_token(claims)),
        None => None,
    };
    Converted {
        auth: JsonTree::Object(
            auth_members(
                token_members(
                    access_token(record)->Some_0,
                    refresh_token(record),
                    crate::text::either(id_token(record), synthetic),
                    account_id,
                    session_token(record),
                    expires_at,
                ),
                last_refresh_of(expires_at, now),
                refresh_token(record) is Some,
            ),
        ),
        info: SessionInfo {
            email,
            plan_type,
            account_id,
            expires_at,
            has_refresh_token: refresh_token(record) is Some,
            id_token_synthetic: synthetic is Some,
        },
        name: match crate::text::either(email, account_id) {
            Some(s) => s,
            None => "ChatGPT Session"@,
        },
    }
}

/// The payload of a token, where there is one.
pub open spec fn payload_of(token: Option<Seq<char>>) -> Option<JsonTree> {
    match token {
        Some(t) => jwt_payload(t),
        None => None,
    }
}

/// What a record with an access token is made into at a given time.
pub open spec fn converted(record: JsonTree, now: Timestamp) -> Converted {
    let access = payload_of(access_token(record));
    let id = payload_of(id_token(record));
    conversion(record, access, id, expiry(record, access), now)
}

/// Whether what goes into the document of a record at a given time reads as it
/// is meant.
pub open spec fn converted_reads_as_meant(record: JsonTree, now: Timestamp) -> bool {
    let access = payload_of(access_token(record));
    let id = payload_of(id_token(record));
    reads_as_meant(record, access, id, expiry(record, access), now)
}

/// Makes an account of a record, given the payloads of its tokens and the time
/// when it runs out. A record without an access token is refused.
pub fn convert_with(
    record: &Json,
    access: &Option<Json>,
    id: &Option<Json>,
    expires_at: Option<String>,
    now: Timestamp,
) -> (r: Result<(Json, ImportedSessionInfo, String), String>)
    requires
        now.valid(),
    ensures
        match r {
            Ok((auth, info, name)) => access_token(record@) is Some && conversion(
                record@,
                opt_payload(*access),
                opt_payload(*id),
                crate::text::opt_text(expires_at),
                now,
            ) == (Converted { auth: auth@, info: info@, name: name@ }) && reads_as_meant(
                record@,
                opt_payload(*access),
                opt_payload(*id),
                crate::text::opt_text(expires_at),
                now,
            ),
            Err(e) => access_token(record@) is None && e@ == "缺少 accessToken"@,
        },
{
    let access_token = match token_of(record, "accessToken", "access_token", "accessToken") {
        Some(t) => t,
        None => {
            return Err("缺少 accessToken".to_owned());
        },
    };
    let session_token = token_of(record, "sessionToken", "session_token", "session_token");
    let refresh_token = token_of(record, "refreshToken", "refresh_token", "refresh_token");
    let given = token_of(record, "idToken", "id_token", "id_token");
    let identity = read_identity(record, access, id);
    let synthetic: Option<String> = match (&given, &identity.account_id) {
        (None, Some(account_id)) => Some(
            build_synthetic_id_token_at(
                borrowed(&identity.email),
                account_id.as_str(),
                borrowed(&identity.plan_type),
                borrowed(&identity.user_id),
                borrowed(&expires_at),
                now.secs,
            ),
        ),
        _ => None,
    };
    let id_token_synthetic = synthetic.is_some();
    let moved = match &expires_at {
        Some(s) => moved_back(s.as_str(), 1),
        None => None,
    };
    let last_refresh = match moved {
        Some(t) => t,
        None => match utc_text(now.secs, now.nanos) {
            Some(t) => t,
            None => String::new(),
        },
    };
    let has_refresh_token = refresh_token.is_some();
    let tokens = SessionTokens {
        access_token,
        refresh_token,
        id_token: or_text(given, synthetic),
        account_id: copy_opt(&identity.account_id),
        session_token,
        expires_at: copy_opt(&expires_at),
    };
    let auth = auth_document(&tokens, last_refresh.as_str());
    let name = match or_text(copy_opt(&identity.email), copy_opt(&identity.account_id)) {
        Some(s) => s,
        None => "ChatGPT Session".to_owned(),
    };
    let info = ImportedSessionInfo {
        email: identity.email,
        plan_type: identity.plan_type,
        account_id: identity.account_id,
        expires_at,
        has_refresh_token,
        id_token_synthetic,
    };
    Ok((auth, info, name))
}

fn borrowed(o: &Option<String>) -> (r: Option<&str>)
    ensures
        crate::text::opt_str(r) == crate::text::opt_text(*o),
{
    match o {
        Some(s) => Some(s.as_str()),
        None => None,
    }
}

/// Makes an account of a record at a given time. A record without an access
/// token is refused.
pub fn convert_one_at(record: &Json, now: Timestamp) -> (r: Result<
    (Json, ImportedSessionInfo, String),
    String,
>)
    requires
        now.valid(),
    ensures
        match r {
            Ok((auth, info, name)) => access_token(record@) is Some && converted(record@, now) == (
            Converted { auth: auth@, info: info@, name: name@ }) && converted_reads_as_meant(
                record@,
                now,
            ),
            Err(e) => access_token(record@) is None && e@ == "缺少 accessToken"@,
        },
{
    let access = match token_of(record, "accessToken", "access_token", "accessToken") {
        Some(t) => parse_jwt_payload(t.as_str()),
        None => None,
    };
    let id = match token_of(record, "idToken", "id_token", "id_token") {
        Some(t) => parse_jwt_payload(t.as_str()),
        None => None,
    };
    let expires_at = read_expiry(record, &access);
    convert_with(record, &access, &id, expires_at, now)
}

/// Makes an account of a record. A record without an access token is refused.
pub fn convert_one(record: &Json) -> (r: Result<(Json, ImportedSessionInfo, String), String>)
    ensures
        match r {
            Ok((auth, info, name)) => access_token(record@) is Some && exists|now: Timestamp|
                now.valid() && #[trigger] converted(record@, now) == (Converted {
                    auth: auth@,
                    info: info@,
                    name: name@,
                }) && converted_reads_as_meant(record@, now),
            Err(e) => access_token(record@) is None && e@ == "缺少 accessToken"@,
        },
{
    convert_one_at(record, utc_now())
}

// ---------------------------------------------------------------------- import

/// An account to be added to the store.
#[derive(Clone, Debug)]
pub struct NewAccount {
    pub name: String,
    pub auth_json: Json,
    pub note: String,
}

#[derive(Clone, Debug)]
pub struct ImportedAccount {
    pub account: NewAccount,
    pub info: ImportedSessionInfo,
}

#[derive(Clone, Debug)]
pub struct ImportError {
    pub source_path: String,
    pub reason: String,
}

/// What came of an import: the accounts to be added, and what was refused.
#[derive(Clone, Debug)]
pub struct ImportSessionResult {
    pub ok: Vec<ImportedAccount>,
    pub errors: Vec<ImportError>,
}

/// What an `ImportedAccount` says.
pub ghost struct Imported {
    pub converted: Converted,
    pub note: Seq<char>,
}

impl View for ImportedAccount {
    type V = Imported;

    open spec fn view(&self) -> Imported {
        Imported {
            converted: Converted {
                auth: self.account.auth_json@,
                info: self.info@,
                name: self.account.name@,
            },
            note: self.account.note@,
        }
    }
}

impl View for ImportError {
    type V = (Seq<char>, Seq<char>);

    open spec fn view(&self) -> (Seq<char>, Seq<char>) {
        (self.source_path@, self.reason@)
    }
}

pub open spec fn imports(v: Seq<ImportedAccount>) -> Seq<Imported> {
    Seq::new(v.len(), |i: int| v[i]@)
}

pub open spec fn refusals(v: Seq<ImportError>) -> Seq<(Seq<char>, Seq<char>)> {
    Seq::new(v.len(), |i: int| v[i]@)
}

/// Why a record is refused, if it is: it has no access token, or there is an
/// account of its name already, which is not overwritten.
pub open spec fn refusal(
    record: JsonTree,
    existing: Seq<Seq<char>>,
    now: Timestamp,
) -> Option<Seq<char>> {
    if access_token(record) is None {
        Some("缺少 accessToken"@)
    } else if existing.contains(converted(record, now).name) {
        Some("已存在同名账号 "@ + converted(record, now).name + "（跳过，不覆盖）"@)
    } else {
        None
    }
}

/// The accounts made of those that were found, in their order.
pub open spec fn accepted(
    found: Seq<(Seq<char>, JsonTree)>,
    existing: Seq<Seq<char>>,
    now: Timestamp,
) -> Seq<Imported>
    decreases found.len(),
{
    if found.len() == 0 {
        Seq::empty()
    } else {
        let before = accepted(found.drop_last(), existing, now);
        let record = found.last().1;
        match refusal(record, existing, now) {
            Some(_) => before,
            None => before.push(
                Imported {
                    converted: converted(record, now),
                    note: "imported from ChatGPT session"@,
                },
            ),
        }
    }
}

/// Where those stood that were refused, and why, in their order.
pub open spec fn refused(
    found: Seq<(Seq<char>, JsonTree)>,
    existing: Seq<Seq<char>>,
    now: Timestamp,
) -> Seq<(Seq<char>, Seq<char>)>
    decreases found.len(),
{
    if found.len() == 0 {
        Seq::empty()
    } else {
        let before = refused(found.drop_last(), existing, now);
        match refusal(found.last().1, existing, now) {
            Some(reason) => before.push((found.last().0, reason)),
            None => before,
        }
    }
}

/// Every session that was found is either made into an account or refused, and
/// an account is never made under a name that is taken.
pub proof fn nothing_found_is_lost_and_nothing_overwritten(
    found: Seq<(Seq<char>, JsonTree)>,
    existing: Seq<Seq<char>>,
    now: Timestamp,
)
    ensures
        accepted(found, existing, now).len() + refused(found, existing, now).len() == found.len(),
        forall|i: int|
            0 <= i < accepted(found, existing, now).len() ==> !existing.contains(
                (#[trigger] accepted(found, existing, now)[i]).converted.name,
            ),
    decreases found.len(),
{
    if found.len() > 0 {
        nothing_found_is_lost_and_nothing_overwritten(found.drop_last(), existing, now);
    }
}

/// Of the sessions found in a document none is refused for want of a token:
/// each is made into an account unless its name is taken.
pub proof fn found_sessions_are_only_refused_for_their_name(
    value: JsonTree,
    path: Seq<char>,
    existing: Seq<Seq<char>>,
    now: Timestamp,
    i: int,
)
    requires
        0 <= i < sessions(value, path).len(),
    ensures
        refusal(sessions(value, path)[i].1, existing, now) is Some <==> existing.contains(
            converted(sessions(value, path)[i].1, now).name,
        ),
{
    what_is_found_is_a_session(value, path);
    assert(is_session(sessions(value, path)[i].1));
}

/// Makes accounts of the sessions that were found.
pub fn import_found(found: &Vec<(String, Json)>, existing: &Vec<String>, now: Timestamp) -> (r:
    ImportSessionResult)
    requires
        now.valid(),
    ensures
        imports(r.ok@) == accepted(
            crate::json::members(found@),
            crate::text::texts(existing@),
            now,
        ),
        refusals(r.errors@) == refused(
            crate::json::members(found@),
            crate::text::texts(existing@),
            now,
        ),
{
    let ghost all = crate::json::members(found@);
    let ghost taken = crate::text::texts(existing@);
    let mut ok: Vec<ImportedAccount> = Vec::new();
    let mut errors: Vec<ImportError> = Vec::new();
    assert(imports(ok@) =~= accepted(all.take(0), taken, now));
    assert(refusals(errors@) =~= refused(all.take(0), taken, now));
    for i in 0..found.len()
        invariant
            now.valid(),
            all == crate::json::members(found@),
            taken == crate::text::texts(existing@),
            imports(ok@) == accepted(all.take(i as int), taken, now),
            refusals(errors@) == refused(all.take(i as int), taken, now),
    {
        let ghost oks = imports(ok@);
        let ghost errs = refusals(errors@);
        assert(all.take(i + 1).drop_last() =~= all.take(i as int));
        assert(all.take(i + 1).last() == (found@[i as int].0@, found@[i as int].1@));
        match convert_one_at(&found[i].1, now) {
            Ok((auth_json, info, name)) => {
                if list_has(existing, name.as_str()) {
                    let reason = joined3("已存在同名账号 ", name.as_str(), "（跳过，不覆盖）");
                    errors.push(ImportError { source_path: found[i].0.clone(), reason });
                    assert(refusals(errors@) =~= errs.push(errors@.last()@));
                } else {
                    let note = "imported from ChatGPT session".to_owned();
                    ok.push(ImportedAccount { account: NewAccount { name, auth_json, note }, info });
                    assert(imports(ok@) =~= oks.push(ok@.last()@));
                }
            },
            Err(reason) => {
                errors.push(ImportError { source_path: found[i].0.clone(), reason });
                assert(refusals(errors@) =~= errs.push(errors@.last()@));
            },
        }
    }
    assert(all.take(found@.len() as int) =~= all);
    ImportSessionResult { ok, errors }
}

/// Why a pasted text cannot be imported at all, if it cannot.
pub open spec fn import_failure(pasted: Seq<char>) -> Option<Seq<char>> {
    let t = crate::text::trimmed(pasted, Edge::Space);
    if t.len() == 0 {
        Some("session JSON 不能为空"@)
    } else {
        match crate::json::json_of_text(t) {
            Err(e) => Some("JSON 解析失败: "@ + e),
            Ok(tree) => if sessions(tree, "$"@).len() == 0 {
                Some("未找到包含 accessToken 的 session 对象"@)
            } else {
                None
            },
        }
    }
}

/// The sessions in a pasted text.
pub open spec fn pasted_sessions(pasted: Seq<char>) -> Seq<(Seq<char>, JsonTree)> {
    sessions(crate::json::json_of_text(crate::text::trimmed(pasted, Edge::Space))->Ok_0, "$"@)
}

/// Finds the sessions in a pasted text, or says why there are none.
pub fn find_pasted(session_json: &str) -> (r: Result<Vec<(String, Json)>, String>)
    ensures
        match r {
            Ok(found) => import_failure(session_json@) is None && crate::json::members(found@)
                == pasted_sessions(session_json@),
            Err(e) => import_failure(session_json@) == Some(e@),
        },
{
    let trimmed = trim(session_json, Edge::Space);
    if trimmed.as_str().is_empty() {
        return Err("session JSON 不能为空".to_owned());
    }
    match read_json_text(trimmed.as_str()) {
        Err(e) => Err(joined("JSON 解析失败: ", e.as_str())),
        Ok(parsed) => {
            let found = collect_session_like(&parsed);
            if found.len() == 0 {
                assert(crate::json::members(found@).len() == 0);
                Err("未找到包含 accessToken 的 session 对象".to_owned())
            } else {
                assert(crate::json::members(found@).len() > 0);
                Ok(found)
            }
        },
    }
}

/// Makes accounts of the sessions in a pasted text, wherever in it they stand.
/// `existing` are the names of the accounts that there are.
pub fn import_chatgpt_session(session_json: &str, existing: &Vec<String>) -> (r: Result<
    ImportSessionResult,
    String,
>)
    ensures
        match r {
            Ok(done) => import_failure(session_json@) is None && exists|now: Timestamp|
                now.valid() && imports(done.ok@) == #[trigger] accepted(
                    pasted_sessions(session_json@),
                    crate::text::texts(existing@),
                    now,
                ) && refusals(done.errors@) == refused(
                    pasted_sessions(session_json@),
                    crate::text::texts(existing@),
                    now,
                ),
            Err(e) => import_failure(session_json@) == Some(e@),
        },
{
    match find_pasted(session_json) {
        Ok(found) => Ok(import_found(&found, existing, utc_now())),
        Err(e) => Err(e),
    }
}

/// Whether imported accounts are handed on to the server: in a mode that does
/// so, with a secret to show, and where there are any.
pub fn hands_on(mode_pushes: bool, secret: &str, imported: usize) -> (r: bool)
    ensures
        r == (mode_pushes && secret@.len() > 0 && imported > 0),
{
    mode_pushes && !secret.is_empty() && imported > 0
}

// ------------------------------------------------------------------------- laws

/// The text that a part of a record has under a name, without the blanks around
/// it. A text of blanks counts as none.
pub open spec fn word_under(part: Option<JsonTree>, name: Seq<char>) -> Option<Seq<char>> {
    match part {
        Some(p) => match p.get(name) {
            Some(JsonTree::Text(s)) => if crate::text::trimmed(s, Edge::Space).len() == 0 {
                None
            } else {
                Some(crate::text::trimmed(s, Edge::Space))
            },
            _ => None,
        },
        None => None,
    }
}

/// The text that a payload has under a name, as it stands there.
pub open spec fn claim_under(part: Option<JsonTree>, name: Seq<char>) -> Option<Seq<char>> {
    match part {
        Some(p) => match p.get(name) {
            Some(JsonTree::Text(s)) => Some(s),
            _ => None,
        },
        None => None,
    }
}

/// The access token of a record is the first that is there: in the record itself,
/// in its `token`, or in its `credentials`, each time under the newer name first.
pub proof fn access_token_is_the_first_that_is_there(record: JsonTree)
    ensures
        crate::text::first_to_tell(
            seq![
                word_under(Some(record), "accessToken"@),
                word_under(Some(record), "access_token"@),
                word_under(record.get("token"@), "accessToken"@),
                word_under(record.get("token"@), "access_token"@),
                word_under(record.get("credentials"@), "accessToken"@),
                word_under(record.get("credentials"@), "access_token"@),
            ],
            access_token(record),
        ),
{
}

/// So are the other tokens of a record, which have one name only in its
/// `credentials`.
pub proof fn other_tokens_are_the_first_that_are_there(record: JsonTree)
    ensures
        crate::text::first_to_tell(
            seq![
                word_under(Some(record), "sessionToken"@),
                word_under(Some(record), "session_token"@),
                word_under(record.get("token"@), "sessionToken"@),
                word_under(record.get("token"@), "session_token"@),
                word_under(record.get("credentials"@), "session_token"@),
            ],
            session_token(record),
        ),
        crate::text::first_to_tell(
            seq![
                word_under(Some(record), "refreshToken"@),
                word_under(Some(record), "refresh_token"@),
                word_under(record.get("token"@), "refreshToken"@),
                word_under(record.get("token"@), "refresh_token"@),
                word_under(record.get("credentials"@), "refresh_token"@),
            ],
            refresh_token(record),
        ),
        crate::text::first_to_tell(
            seq![
                word_under(Some(record), "idToken"@),
                word_under(Some(record), "id_token"@),
                word_under(record.get("token"@), "idToken"@),
                word_under(record.get("token"@), "id_token"@),
                word_under(record.get("credentials"@), "id_token"@),
            ],
            id_token(record),
        ),
{
}

/// A document is a session just where it is an object with an access token that
/// says whose it is: by a user, by an e-mail address, a name or an id, or by the
/// account that its provider knows.
pub proof fn session_has_a_token_and_an_owner(value: JsonTree)
    ensures
        is_session(value) <==> {
            &&& value is Object
            &&& access_token(value) is Some
            &&& {
                ||| value.get("user"@) is Some && value.get("user"@)->Some_0 is Object
                ||| word_under(Some(value), "email"@) is Some
                ||| word_under(Some(value), "name"@) is Some
                ||| word_under(Some(value), "id"@) is Some
                ||| word_under(value.get("providerSpecificData"@), "chatgptAccountId"@) is Some
                ||| word_under(value.get("providerSpecificData"@), "chatgpt_account_id"@) is Some
            }
        },
{
}

/// The sessions of an array are those of its items, in their order, each with
/// the position of its item in its path.
pub proof fn sessions_of_an_array_are_those_of_its_items(
    items: Seq<JsonTree>,
    item: JsonTree,
    path: Seq<char>,
)
    ensures
        sessions(JsonTree::Array(Seq::empty()), path) == Seq::<(Seq<char>, JsonTree)>::empty(),
        sessions(JsonTree::Array(items.push(item)), path) == sessions(JsonTree::Array(items), path)
            + sessions(item, path + "["@ + crate::text::decimal(items.len() as int) + "]"@),
{
    let all = items.push(item);
    let whole = JsonTree::Array(all);
    let part = JsonTree::Array(items);
    let none = JsonTree::Array(Seq::empty());
    assert(whole->Array_0 == all && part->Array_0 == items);
    assert(none->Array_0.len() == 0);
    lemma_front_items(items, item, path, items.len());
}

proof fn lemma_front_items(items: Seq<JsonTree>, item: JsonTree, path: Seq<char>, n: nat)
    requires
        n <= items.len(),
    ensures
        sessions_in_items(items.push(item), path, n) == sessions_in_items(items, path, n),
    decreases n,
{
    if n > 0 {
        lemma_front_items(items, item, path, (n - 1) as nat);
        assert(items.push(item)[n - 1] == items[n - 1]);
    }
}

/// The sessions of an object that is none itself are those of its members, in
/// their order, each with the name of its member in its path; nothing is looked
/// for under the names of tokens.
pub proof fn sessions_of_an_object_are_those_of_its_members(
    pairs: Seq<(Seq<char>, JsonTree)>,
    name: Seq<char>,
    value: JsonTree,
    path: Seq<char>,
)
    requires
        !is_session(JsonTree::Object(pairs)),
        !is_session(JsonTree::Object(pairs.push((name, value)))),
    ensures
        sessions(JsonTree::Object(pairs.push((name, value))), path) == sessions(
            JsonTree::Object(pairs),
            path,
        ) + if name == "accessToken"@ || name == "access_token"@ || name == "sessionToken"@ {
            Seq::empty()
        } else {
            sessions(value, path + "."@ + name)
        },
{
    let all = pairs.push((name, value));
    let whole = JsonTree::Object(all);
    let part = JsonTree::Object(pairs);
    assert(whole->Object_0 == all && part->Object_0 == pairs);
    lemma_front_members(pairs, name, value, path, pairs.len());
    let front = sessions_in_members(pairs, path, pairs.len());
    assert(all[pairs.len() as int] == (name, value));
    assert(front + Seq::<(Seq<char>, JsonTree)>::empty() =~= front);
}

proof fn lemma_front_members(
    pairs: Seq<(Seq<char>, JsonTree)>,
    name: Seq<char>,
    value: JsonTree,
    path: Seq<char>,
    n: nat,
)
    requires
        n <= pairs.len(),
    ensures
        sessions_in_members(pairs.push((name, value)), path, n) == sessions_in_members(
            pairs,
            path,
            n,
        ),
    decreases n,
{
    if n > 0 {
        lemma_front_members(pairs, name, value, path, (n - 1) as nat);
        assert(pairs.push((name, value))[n - 1] == pairs[n - 1]);
    }
}

/// What is neither an object nor an array holds no sessions, and an object
/// without members holds none.
pub proof fn plain_values_hold_no_sessions(value: JsonTree, path: Seq<char>)
    ensures
        !(value is Object) && !(value is Array) ==> sessions(value, path).len() == 0,
        sessions(JsonTree::Object(Seq::empty()), path).len() == 0,
{
    let none = JsonTree::Object(Seq::<(Seq<char>, JsonTree)>::empty());
    assert(none->Object_0.len() == 0);
    assert(none.get("accessToken"@) is None && none.get("access_token"@) is None);
    assert(none.get("token"@) is None && none.get("credentials"@) is None);
}

/// The payload of a token is the document in its second part, whatever stands in
/// the others; a token without a dot has none.
pub proof fn payload_is_the_second_part(
    head: Seq<char>,
    body: Seq<char>,
    tail: Seq<char>,
    bytes: Seq<u8>,
    doc: JsonTree,
)
    requires
        !head.contains('.'),
        !body.contains('.'),
    ensures
        base64_bytes(body) == Some(bytes) && crate::json::json_document(bytes) == Ok::<
            JsonTree,
            Seq<char>,
        >(doc) ==> jwt_payload(head.push('.') + body) == Some(doc) && jwt_payload(
            head.push('.') + body.push('.') + tail,
        ) == Some(doc),
        base64_bytes(body) is None ==> jwt_payload(head.push('.') + body) is None && jwt_payload(
            head.push('.') + body.push('.') + tail,
        ) is None,
        jwt_payload(head) is None,
{
    let short = head.push('.') + body;
    let rest = body.push('.') + tail;
    let long = head.push('.') + rest;
    assert(head.push('.') + body.push('.') + tail =~= long);
    lemma_front_part(head, body);
    lemma_front_part(head, rest);
    lemma_front_part(body, tail);
    assert(crate::text::split_on(body, '.') == seq![body]);
    assert(crate::text::split_on(short, '.')[1] == body);
    assert(crate::text::split_on(long, '.')[1] == body);
    assert(crate::text::split_on(head, '.').len() == 1);
    crate::text::pieces_make_up_the_text(tail, '.');
}

proof fn lemma_front_part(front: Seq<char>, rest: Seq<char>)
    requires
        !front.contains('.'),
    ensures
        crate::text::split_on(front.push('.') + rest, '.') == seq![front] + crate::text::split_on(
            rest,
            '.',
        ),
{
    let s = front.push('.') + rest;
    crate::text::lemma_first_index(s, '.');
    assert(s[front.len() as int] == '.');
    assert(forall|i: int| 0 <= i < front.len() ==> s[i] == front[i]);
    assert(crate::text::before(s, '.') =~= front);
    assert(crate::text::behind(s, '.') =~= rest);
}

/// A session belongs to whom its record names, or else to whom its tokens name,
/// the first that is there counting each time.
pub proof fn session_belongs_to_whom_it_names(
    record: JsonTree,
    access: Option<JsonTree>,
    id: Option<JsonTree>,
    now: Timestamp,
)
    requires
        access == match access_token(record) {
            Some(t) => jwt_payload(t),
            None => None,
        },
        id == match id_token(record) {
            Some(t) => jwt_payload(t),
            None => None,
        },
    ensures
        ({
            let auth = "https://api.openai.com/auth"@;
            let of_access = match access {
                Some(p) => p.get(auth),
                None => None,
            };
            let of_id = match id {
                Some(p) => p.get(auth),
                None => None,
            };
            let profile = match access {
                Some(p) => p.get("https://api.openai.com/profile"@),
                None => None,
            };
            let data = record.get("providerSpecificData"@);
            let info = converted(record, now).info;
            &&& crate::text::first_to_tell(
                seq![
                    word_under(record.get("user"@), "email"@),
                    word_under(Some(record), "email"@),
                    word_under(record.get("credentials"@), "email"@),
                    word_under(data, "email"@),
                    claim_under(profile, "email"@),
                    claim_under(id, "email"@),
                    claim_under(access, "email"@),
                ],
                info.email,
            )
            &&& crate::text::first_to_tell(
                seq![
                    word_under(record.get("account"@), "id"@),
                    word_under(Some(record), "account_id"@),
                    word_under(Some(record), "chatgptAccountId"@),
                    word_under(data, "chatgptAccountId"@),
                    word_under(data, "chatgpt_account_id"@),
                    claim_under(of_access, "chatgpt_account_id"@),
                    claim_under(of_id, "chatgpt_account_id"@),
                ],
                info.account_id,
            )
            &&& crate::text::first_to_tell(
                seq![
                    word_under(record.get("account"@), "planType"@),
                    word_under(record.get("account"@), "plan_type"@),
                    word_under(Some(record), "planType"@),
                    word_under(Some(record), "plan_type"@),
                    word_under(data, "chatgptPlanType"@),
                    word_under(data, "chatgpt_plan_type"@),
                    claim_under(of_access, "chatgpt_plan_type"@),
                ],
                info.plan_type,
            )
            &&& crate::text::first_to_tell(
                seq![
                    word_under(record.get("user"@), "id"@),
                    word_under(Some(record), "user_id"@),
                    word_under(Some(record), "chatgptUserId"@),
                    word_under(data, "chatgptUserId"@),
                    word_under(data, "chatgpt_user_id"@),
                    claim_under(of_access, "chatgpt_user_id"@),
                ],
                user_id_of(record, access),
            )
        }),
{
}

/// Whether the access token of a record says when it runs out, in seconds that
/// can be held.
pub open spec fn token_says_its_end(record: JsonTree, secs: int) -> bool {
    &&& access_token(record) is Some
    &&& jwt_payload(access_token(record)->Some_0) is Some
    &&& jwt_payload(access_token(record)->Some_0)->Some_0.get("exp"@) == Some(JsonTree::Int(secs))
    &&& -8_334_601_228_800 <= secs <= 8_210_266_876_799
}

/// A session runs out when its access token says, written in UTC.
pub proof fn session_runs_out_when_its_token_says(record: JsonTree, secs: int, now: Timestamp)
    requires
        token_says_its_end(record, secs),
    ensures
        converted(record, now).info.expires_at == Some(crate::clock::utc_rfc3339(secs, 0)),
{
}

/// Whether a record has a text under a name that reads as a time in RFC 3339, or
/// in the form that browsers write where it does not.
pub open spec fn record_says_its_end(record: JsonTree, name: Seq<char>, time: Timestamp) -> bool {
    exists|text: Seq<char>|
        record.get(name) == Some(JsonTree::Text(text)) && (#[trigger] crate::clock::rfc3339_time(
            text,
        ) == Some(time) || (crate::clock::rfc3339_time(text) is None && crate::clock::naive_time(
            text,
            "%Y-%m-%dT%H:%M:%S%.fZ"@,
        ) == Some(time)))
}

/// Where the access token does not say when it runs out, a session runs out when
/// its record says, written in UTC: under `expires`, or else under the first of
/// three other names that has a time. Where none has, nobody knows.
pub proof fn session_runs_out_when_its_record_says(
    record: JsonTree,
    time: Timestamp,
    now: Timestamp,
)
    requires
        forall|secs: int| !#[trigger] token_says_its_end(record, secs),
    ensures
        ({
            let ends = converted(record, now).info.expires_at;
            let written = Some(crate::clock::utc_rfc3339(time.secs as int, time.nanos as int));
            let first = forall|t: Timestamp| !#[trigger] record_says_its_end(record, "expires"@, t);
            let second = forall|t: Timestamp| !#[trigger] record_says_its_end(record, "expiresAt"@, t);
            let third = forall|t: Timestamp| !#[trigger] record_says_its_end(record, "expired"@, t);
            let fourth = forall|t: Timestamp| !#[trigger] record_says_its_end(record, "expires_at"@, t);
            &&& record_says_its_end(record, "expires"@, time) ==> ends == written
            &&& first && record_says_its_end(record, "expiresAt"@, time) ==> ends == written
            &&& first && second && record_says_its_end(record, "expired"@, time) ==> ends == written
            &&& first && second && third && record_says_its_end(record, "expires_at"@, time) ==> ends
                == written
            &&& first && second && third && fourth ==> ends is None
        }),
{
    let access = payload_of(access_token(record));
    assert(token_expiry(access) is None) by {
        if let Some(p) = access {
            if let Some(n) = p.int_at("exp"@) {
                assert(!token_says_its_end(record, n));
            }
        }
    }
    lemma_end_under(record, "expires"@, time);
    lemma_end_under(record, "expiresAt"@, time);
    lemma_end_under(record, "expired"@, time);
    lemma_end_under(record, "expires_at"@, time);
}

proof fn lemma_end_under(record: JsonTree, name: Seq<char>, time: Timestamp)
    ensures
        record_says_its_end(record, name, time) ==> iso_at(record, name) == Some(written(time)),
        (forall|t: Timestamp| !#[trigger] record_says_its_end(record, name, t)) ==> iso_at(
            record,
            name,
        ) is None,
{
    if let Some(text) = record.text_at(name) {
        assert(record.get(name) == Some(JsonTree::Text(text)));
        if let Some(t) = crate::clock::rfc3339_time(text) {
            assert(record_says_its_end(record, name, t));
        } else if let Some(t) = crate::clock::naive_time(text, "%Y-%m-%dT%H:%M:%S%.fZ"@) {
            assert(crate::clock::rfc3339_time(text) is None);
            assert(record_says_its_end(record, name, t));
        }
    }
}

/// The document of a session holds its tokens and when it runs out, says how it
/// was logged in, and is marked where there is nothing to refresh it with. What
/// is told of the session agrees with it, and it is named after its e-mail
/// address, or else after its account.
pub proof fn document_agrees_with_what_is_told(record: JsonTree, now: Timestamp)
    requires
        access_token(record) is Some,
    ensures
        ({
            let c = converted(record, now);
            let tokens = c.auth.get("tokens"@);
            let t = tokens->Some_0;
            &&& tokens is Some
            &&& t.text_at("access_token"@) == access_token(record)
            &&& refresh_token(record) is Some ==> t.text_at("refresh_token"@) == refresh_token(
                record,
            )
            &&& refresh_token(record) is None ==> t.text_at("refresh_token"@) == Some(""@)
            &&& t.text_at("session_token"@) == session_token(record)
            &&& t.text_at("account_id"@) == c.info.account_id
            &&& t.text_at("expires_at"@) == c.info.expires_at
            &&& id_token(record) is Some ==> t.text_at("id_token"@) == id_token(record)
            &&& id_token(record) is None && c.info.account_id is None ==> t.text_at("id_token"@)
                is None
            &&& c.info.id_token_synthetic <==> id_token(record) is None && c.info.account_id
                is Some
            &&& c.info.has_refresh_token <==> refresh_token(record) is Some
            &&& c.auth.text_at("auth_mode"@) == Some("chatgpt"@)
            &&& c.auth.text_at("source"@) == Some("chatgpt_web_session"@)
            &&& refresh_token(record) is None ==> c.auth.get("session_import_no_refresh"@) == Some(
                JsonTree::Bool(true),
            )
            &&& refresh_token(record) is Some ==> c.auth.get("session_import_no_refresh"@) is None
            &&& c.info.email is Some ==> c.name == c.info.email->Some_0
            &&& c.info.email is None && c.info.account_id is Some ==> c.name
                == c.info.account_id->Some_0
            &&& c.info.email is None && c.info.account_id is None ==> c.name == "ChatGPT Session"@
        }),
{
    let access = payload_of(access_token(record));
    let id = payload_of(id_token(record));
    let expires_at = expiry(record, access);
    let synthetic = match made_up_claims(record, access, id, expires_at, now) {
        Some(claims) => Some(synthetic_token(claims)),
        None => None,
    };
    let account_id = account_id_of(record, access, id);
    let given = crate::text::either(id_token(record), synthetic);
    tokens_are_read_back(
        access_token(record)->Some_0,
        refresh_token(record),
        given,
        account_id,
        session_token(record),
        expires_at,
    );
    document_holds_its_tokens(
        token_members(
            access_token(record)->Some_0,
            refresh_token(record),
            given,
            account_id,
            session_token(record),
            expires_at,
        ),
        last_refresh_of(expires_at, now),
        refresh_token(record) is Some,
    );
}

/// The tokens of a session count as refreshed an hour before it runs out, and
/// where nobody knows when that is, just now.
pub proof fn session_was_refreshed_an_hour_before_its_end(
    record: JsonTree,
    now: Timestamp,
    secs: int,
    nanos: int,
)
    requires
        access_token(record) is Some,
        converted_reads_as_meant(record, now),
    ensures
        ({
            let c = converted(record, now);
            let ends = crate::clock::utc_rfc3339(secs, nanos);
            &&& c.info.expires_at is None ==> c.auth.text_at("last_refresh"@) == Some(
                crate::clock::utc_rfc3339(now.secs as int, now.nanos as int),
            )
            &&& c.info.expires_at == Some(ends) && crate::clock::rfc3339_time(ends) is Some
                && crate::clock::holds(secs, nanos) && nanos < 1_000_000_000 ==> c.auth.text_at(
                "last_refresh"@,
            ) == Some(crate::clock::utc_rfc3339(secs - 3_600, nanos))
        }),
{
    let access = payload_of(access_token(record));
    let id = payload_of(id_token(record));
    let expires_at = expiry(record, access);
    let synthetic = match made_up_claims(record, access, id, expires_at, now) {
        Some(claims) => Some(synthetic_token(claims)),
        None => None,
    };
    document_holds_its_tokens(
        token_members(
            access_token(record)->Some_0,
            refresh_token(record),
            crate::text::either(id_token(record), synthetic),
            account_id_of(record, access, id),
            session_token(record),
            expires_at,
        ),
        last_refresh_of(expires_at, now),
        refresh_token(record) is Some,
    );
}

/// A session that names an account but brings no ID token gets one made up. Its
/// payload, read back, says whose the session is, when it was made, and that it
/// ends when the session does, or else in 90 days.
pub proof fn made_up_token_says_whose_the_session_is(
    record: JsonTree,
    now: Timestamp,
    account: Seq<char>,
)
    requires
        access_token(record) is Some,
        converted_reads_as_meant(record, now),
        id_token(record) is None,
        converted(record, now).info.account_id == Some(account),
    ensures
        ({
            let c = converted(record, now);
            let token = c.auth.get("tokens"@)->Some_0.text_at("id_token"@);
            let read = jwt_payload(token->Some_0);
            let claims = read->Some_0;
            let auth = claims.get("https://api.openai.com/auth"@);
            let end = match c.info.expires_at {
                Some(s) => crate::clock::rfc3339_time(s),
                None => None,
            };
            &&& token is Some && read is Some && auth is Some
            &&& auth->Some_0.text_at("chatgpt_account_id"@) == Some(account)
            &&& auth->Some_0.text_at("chatgpt_plan_type"@) == c.info.plan_type
            &&& auth->Some_0.text_at("chatgpt_user_id"@) == user_id_of(
                record,
                jwt_payload(access_token(record)->Some_0),
            )
            &&& auth->Some_0.text_at("user_id"@) == auth->Some_0.text_at("chatgpt_user_id"@)
            &&& claims.text_at("email"@) == c.info.email
            &&& claims.get("iat"@) == Some(JsonTree::Int(now.secs as int))
            &&& end is Some ==> claims.get("exp"@) == Some(JsonTree::Int(end->Some_0.secs as int))
            &&& end is None ==> claims.get("exp"@) == Some(
                JsonTree::Int(now.secs + 90 * 86_400),
            )
        }),
{
    let access = payload_of(access_token(record));
    let id = payload_of(id_token(record));
    let expires_at = expiry(record, access);
    let claims = made_up_claims(record, access, id, expires_at, now)->Some_0;
    claims_say_whose_they_are(
        email_of(record, access, id),
        account,
        plan_type_of(record, access),
        user_id_of(record, access),
        now.secs as int,
        synthetic_end(expires_at, now.secs as int),
    );
    let members = token_members(
        access_token(record)->Some_0,
        refresh_token(record),
        Some(synthetic_token(claims)),
        Some(account),
        session_token(record),
        expires_at,
    );
    tokens_are_read_back(
        access_token(record)->Some_0,
        refresh_token(record),
        Some(synthetic_token(claims)),
        Some(account),
        session_token(record),
        expires_at,
    );
    document_holds_its_tokens(
        members,
        last_refresh_of(expires_at, now),
        refresh_token(record) is Some,
    );
}

/// A record is refused for want of an access token, or because there is an
/// account of its name, which the reason names; else it is not refused.
pub proof fn record_is_refused_for_a_reason(
    record: JsonTree,
    existing: Seq<Seq<char>>,
    now: Timestamp,
)
    ensures
        access_token(record) is None ==> refusal(record, existing, now) == Some("缺少 accessToken"@),
        access_token(record) is Some && existing.contains(converted(record, now).name) ==> refusal(
            record,
            existing,
            now,
        ) == Some("已存在同名账号 "@ + converted(record, now).name + "（跳过，不覆盖）"@),
        access_token(record) is Some && !existing.contains(converted(record, now).name) ==> refusal(
            record,
            existing,
            now,
        ) is None,
{
}

/// What was found is imported in its order, one after the other: a record that
/// is not refused as the account that it is made into, and one that is refused
/// as where it stood and why.
pub proof fn records_are_imported_one_after_the_other(
    found: Seq<(Seq<char>, JsonTree)>,
    path: Seq<char>,
    record: JsonTree,
    existing: Seq<Seq<char>>,
    now: Timestamp,
)
    ensures
        accepted(Seq::empty(), existing, now).len() == 0,
        refused(Seq::empty(), existing, now).len() == 0,
        ({
            let all = found.push((path, record));
            let reason = refusal(record, existing, now);
            &&& reason is None ==> accepted(all, existing, now) == accepted(
                found,
                existing,
                now,
            ).push(
                (Imported {
                    converted: converted(record, now),
                    note: "imported from ChatGPT session"@,
                }),
            ) && refused(all, existing, now) == refused(found, existing, now)
            &&& reason is Some ==> accepted(all, existing, now) == accepted(found, existing, now)
                && refused(all, existing, now) == refused(found, existing, now).push(
                (path, reason->Some_0),
            )
        }),
{
    assert(found.push((path, record)).drop_last() =~= found);
}

/// A pasted text can be imported just where it is a document that holds a
/// session, blanks around it aside; else the error says what is wrong with it.
pub proof fn pasted_text_has_to_hold_a_session(pasted: Seq<char>)
    ensures
        ({
            let text = crate::text::trimmed(pasted, Edge::Space);
            let doc = crate::json::json_of_text(text);
            &&& text.len() == 0 ==> import_failure(pasted) == Some("session JSON 不能为空"@)
            &&& text.len() > 0 && doc is Err ==> import_failure(pasted) == Some(
                "JSON 解析失败: "@ + doc->Err_0,
            )
            &&& text.len() > 0 && doc is Ok && sessions(doc->Ok_0, "$"@).len() == 0
                ==> import_failure(pasted) == Some("未找到包含 accessToken 的 session 对象"@)
            &&& text.len() > 0 && doc is Ok && sessions(doc->Ok_0, "$"@).len() > 0
                ==> import_failure(pasted) is None && pasted_sessions(pasted) == sessions(
                doc->Ok_0,
                "$"@,
            )
            &&& import_failure(text) == import_failure(pasted)
            &&& pasted_sessions(text) == pasted_sessions(pasted)
        }),
{
    crate::text::trimming_twice_changes_nothing(pasted, Edge::Space);
}

/// What was learnt of a session is told field by field, and accounts and refusals
/// are told one by one.
pub proof fn imports_are_told_field_by_field(
    info: ImportedSessionInfo,
    done: ImportedAccount,
    e: ImportError,
    oks: Seq<ImportedAccount>,
    errors: Seq<ImportError>,
    payload: Json,
    i: int,
)
    ensures
        info@.email == crate::text::opt_text(info.email),
        info@.plan_type == crate::text::opt_text(info.plan_type),
        info@.account_id == crate::text::opt_text(info.account_id),
        info@.expires_at == crate::text::opt_text(info.expires_at),
        info@.has_refresh_token == info.has_refresh_token,
        info@.id_token_synthetic == info.id_token_synthetic,
        done@.converted.auth == done.account.auth_json@,
        done@.converted.info == done.info@,
        done@.converted.name == done.account.name@,
        done@.note == done.account.note@,
        e@ == (e.source_path@, e.reason@),
        imports(oks).len() == oks.len() && refusals(errors).len() == errors.len(),
        0 <= i < oks.len() ==> imports(oks)[i] == oks[i]@,
        0 <= i < errors.len() ==> refusals(errors)[i] == errors[i]@,
        opt_payload(Some(payload)) == Some(payload@) && opt_payload(None) is None,
{
}

/// The header of a made-up token says that it is signed by nobody and that it is
/// made up, and the token ends with a mark of that.
pub proof fn made_up_token_is_marked_as_such(claims: JsonTree, token: Seq<char>)
    ensures
        synthetic_header().get("alg"@) == Some(JsonTree::Text("none"@)),
        synthetic_header().get("typ"@) == Some(JsonTree::Text("JWT"@)),
        synthetic_header().get("cpa_synthetic"@) == Some(JsonTree::Bool(true)),
        is_made_up(token, claims) ==> token == base64_text(
            crate::json::json_bytes(synthetic_header()),
        ) + "."@ + base64_text(crate::json::json_bytes(claims)) + ".synthetic"@ && jwt_payload(
            token,
        ) == Some(claims) && crate::text::split_on(token, '.').len() == 3,
{
    reveal_strlit("alg");
    reveal_strlit("typ");
    reveal_strlit("cpa_synthetic");
    assert("alg"@[0] == 'a' && "typ"@[0] == 't' && "cpa_synthetic"@[0] == 'c');
    let none = Seq::<(Seq<char>, JsonTree)>::empty();
    let a = with_text(none, "alg"@, Some("none"@));
    let b = with_text(a, "typ"@, Some("JWT"@));
    let mark = JsonTree::Bool(true);
    lemma_with_text_found(none, "alg"@, Some("none"@), "typ"@);
    lemma_with_text_found(a, "typ"@, Some("JWT"@), "alg"@);
    crate::json::member_put_in_is_found(b, "cpa_synthetic"@, mark, "alg"@);
    crate::json::member_put_in_is_found(b, "cpa_synthetic"@, mark, "typ"@);
    let header = synthetic_header();
    assert(header->Object_0 == crate::json::with_member(b, "cpa_synthetic"@, mark));
}

} // verus!
