//! Keeping a session with the account that served it.
//!
//! The prompts of a session are cached for each account apart, so that a
//! session that moves to another account finds nothing cached. Each answer that
//! is complete binds its session to the account that gave it, for a time.
use crate::clock::{nanos_since, start_of_time, LONGEST};
use crate::json::{read_json, Json, JsonTree};
use crate::table::Table;
use crate::text::{joined, same_text, take_head, write_hex};
use vstd::prelude::*;
use vstd::std_specs::hash::DefaultHasherAdditionalSpecFns;

verus! {

broadcast use {crate::json::lemma_array, crate::json::lemma_object};

/// How long a binding lasts from its last hit: an hour, in nanoseconds.
pub const BINDING_TTL: u128 = 3_600_000_000_000;

/// How long a hit keeps the next one from counting as the last: 30 seconds, in
/// nanoseconds.
pub const RECENT_DEBOUNCE: u128 = 30_000_000_000;

pub const NANOS_PER_SECOND: u128 = 1_000_000_000;

/// What binds a session to an account. Times are in nanoseconds since the
/// bindings were begun.
struct BindingEntry {
    account_id: String,
    first_bound_at: u128,
    last_hit_at: u128,
    hit_count: u32,
    total_cached_tokens: i64,
}

/// What a binding says.
pub ghost struct Binding {
    pub account_id: Seq<char>,
    pub first_bound_at: u128,
    pub last_hit_at: u128,
    pub hit_count: u32,
    pub total_cached_tokens: i64,
}

impl BindingEntry {
    spec fn says(self) -> Binding {
        Binding {
            account_id: self.account_id@,
            first_bound_at: self.first_bound_at,
            last_hit_at: self.last_hit_at,
            hit_count: self.hit_count,
            total_cached_tokens: self.total_cached_tokens,
        }
    }
}

/// Whether a binding has lasted too long.
pub open spec fn expired(b: Binding, now: u128) -> bool {
    now - b.last_hit_at > BINDING_TTL
}

/// One more, unless that is too many.
pub open spec fn one_more(n: u32) -> u32 {
    if n == u32::MAX {
        n
    } else {
        (n + 1) as u32
    }
}

/// So many tokens more, unless that is too many.
pub open spec fn more_tokens(total: i64, tokens: i64) -> i64 {
    if tokens <= 0 {
        total
    } else if total + tokens > i64::MAX {
        i64::MAX
    } else {
        (total + tokens) as i64
    }
}

/// A binding to an account once an answer of it is complete.
pub open spec fn bound(
    known: Option<Binding>,
    account_id: Seq<char>,
    tokens: i64,
    now: u128,
) -> Binding {
    match known {
        Some(b) => if b.account_id == account_id {
            Binding {
                last_hit_at: if now - b.last_hit_at >= RECENT_DEBOUNCE {
                    now
                } else {
                    b.last_hit_at
                },
                hit_count: one_more(b.hit_count),
                total_cached_tokens: more_tokens(b.total_cached_tokens, tokens),
                ..b
            }
        } else {
            bound_anew(account_id, tokens, now)
        },
        None => bound_anew(account_id, tokens, now),
    }
}

/// A new binding.
pub open spec fn bound_anew(account_id: Seq<char>, tokens: i64, now: u128) -> Binding {
    Binding {
        account_id,
        first_bound_at: now,
        last_hit_at: now,
        hit_count: 1,
        total_cached_tokens: if tokens > 0 {
            tokens
        } else {
            0
        },
    }
}

/// The binding of a session.
pub open spec fn binding_of(all: Map<Seq<char>, Binding>, key: Seq<char>) -> Option<Binding> {
    if all.contains_key(key) {
        Some(all[key])
    } else {
        None
    }
}

/// The bindings once an answer is complete.
pub open spec fn recorded(
    all: Map<Seq<char>, Binding>,
    key: Seq<char>,
    account_id: Seq<char>,
    tokens: i64,
    now: u128,
) -> Map<Seq<char>, Binding> {
    all.insert(key, bound(binding_of(all, key), account_id, tokens, now))
}

/// The bindings to other accounts.
pub open spec fn without_account(all: Map<Seq<char>, Binding>, account_id: Seq<char>) -> Map<
    Seq<char>,
    Binding,
> {
    all.restrict(all.dom().filter(|k: Seq<char>| all[k].account_id != account_id))
}

/// The bindings that have not expired.
pub open spec fn unexpired(all: Map<Seq<char>, Binding>, now: u128) -> Map<Seq<char>, Binding> {
    all.restrict(all.dom().filter(|k: Seq<char>| !expired(all[k], now)))
}

/// The account that a session is bound to.
pub open spec fn account_of(all: Map<Seq<char>, Binding>, key: Seq<char>, now: u128) -> Option<
    Seq<char>,
> {
    match binding_of(all, key) {
        Some(b) => if expired(b, now) {
            None
        } else {
            Some(b.account_id)
        },
        None => None,
    }
}

/// Whether a session is bound to an account.
pub open spec fn serves(all: Map<Seq<char>, Binding>, account_id: Seq<char>, now: u128) -> bool {
    exists|k: Seq<char>| #[trigger]
        all.contains_key(k) && all[k].account_id == account_id && !expired(all[k], now)
}

/// What is shown of a binding.
#[derive(Clone, Debug)]
pub struct SessionBindingSnapshot {
    pub session_key: String,
    pub account_id: String,
    pub age_secs: u64,
    pub hit_count: u32,
    pub total_cached_tokens: i64,
}

impl SessionBindingSnapshot {
    /// Whether this shows a binding.
    pub open spec fn shows(self, b: Binding, now: u128) -> bool {
        &&& self.account_id@ == b.account_id
        &&& self.age_secs == if now < b.first_bound_at {
            0
        } else {
            (now - b.first_bound_at) as u128 / NANOS_PER_SECOND
        }
        &&& self.hit_count == b.hit_count
        &&& self.total_cached_tokens == b.total_cached_tokens
    }
}

/// The sessions and the accounts that they are bound to.
pub struct SessionAffinity {
    origin: std::time::Instant,
    bindings: Table<BindingEntry>,
}

impl View for SessionAffinity {
    type V = Map<Seq<char>, Binding>;

    closed spec fn view(&self) -> Map<Seq<char>, Binding> {
        self.bindings@.map_values(|e: BindingEntry| e.says())
    }
}

impl SessionAffinity {
    /// No session is bound twice.
    pub closed spec fn wf(self) -> bool {
        self.bindings.wf()
    }

    /// When the bindings were begun, which all times are counted from.
    pub closed spec fn since(self) -> std::time::Instant {
        self.origin
    }

    /// No session is bound.
    pub fn new() -> (r: Self)
        ensures
            r.wf(),
            r@ == Map::<Seq<char>, Binding>::empty(),
    {
        let r = SessionAffinity { origin: start_of_time(), bindings: Table::new() };
        assert(r@ =~= Map::<Seq<char>, Binding>::empty());
        r
    }

    fn now(&self) -> (r: u128)
        ensures
            r <= LONGEST,
    {
        nanos_since(&self.origin)
    }

    /// The account that a session is bound to, at a given time. A binding that
    /// has expired is dropped, and so is one to an account that the filter
    /// turns down.
    pub fn lookup_at<F: Fn(&str) -> bool>(
        &mut self,
        session_key: &str,
        account_filter: F,
        now: u128,
    ) -> (r: Option<String>)
        requires
            old(self).wf(),
            forall|s: &str| #[trigger] account_filter.requires((s,)),
        ensures
            final(self).wf(),
            final(self).since() == old(self).since(),
            match account_of(old(self)@, session_key@, now) {
                None => r is None && final(self)@ == old(self)@.remove(session_key@),
                Some(account) => exists|s: &str, ok: bool| #[trigger]
                    account_filter.ensures((s,), ok) && s@ == account && if ok {
                        crate::text::opt_text(r) == Some(account) && final(self)@ == old(self)@
                    } else {
                        r is None && final(self)@ == old(self)@.remove(session_key@)
                    },
            },
    {
        let ghost before = self@;
        let entry = match self.bindings.get(session_key) {
            Some(e) => e,
            None => {
                assert(self@.remove(session_key@) =~= self@);
                return None;
            },
        };
        if entry.last_hit_at < now && now - entry.last_hit_at > BINDING_TTL {
            self.bindings.remove(session_key);
            assert(self@ =~= before.remove(session_key@));
            return None;
        }
        let account_id = entry.account_id.clone();
        let ok = account_filter(account_id.as_str());
        if !ok {
            self.bindings.remove(session_key);
            assert(self@ =~= before.remove(session_key@));
            return None;
        }
        Some(account_id)
    }

    /// The account that a session is bound to.
    pub fn lookup<F: Fn(&str) -> bool>(&mut self, session_key: &str, account_filter: F) -> (r:
        Option<String>)
        requires
            old(self).wf(),
            forall|s: &str| #[trigger] account_filter.requires((s,)),
        ensures
            final(self).wf(),
            final(self).since() == old(self).since(),
            exists|now: u128|
                now <= LONGEST && match #[trigger] account_of(old(self)@, session_key@, now) {
                    None => r is None && final(self)@ == old(self)@.remove(session_key@),
                    Some(account) => exists|s: &str, ok: bool| #[trigger]
                        account_filter.ensures((s,), ok) && s@ == account && if ok {
                            crate::text::opt_text(r) == Some(account) && final(self)@ == old(self)@
                        } else {
                            r is None && final(self)@ == old(self)@.remove(session_key@)
                        },
                },
    {
        let now: u128 = self.now();
        self.lookup_at(session_key, account_filter, now)
    }

    /// Binds a session to the account whose answer to it is complete, at a given
    /// time.
    pub fn record_cache_hit_at(
        &mut self,
        session_key: &str,
        account_id: &str,
        cached_tokens: i64,
        now: u128,
    )
        requires
            old(self).wf(),
        ensures
            final(self).wf(),
            final(self).since() == old(self).since(),
            final(self)@ == recorded(old(self)@, session_key@, account_id@, cached_tokens, now),
    {
        let ghost before = self@;
        let known = match self.bindings.get(session_key) {
            Some(e) => same_text(e.account_id.as_str(), account_id),
            None => false,
        };
        if known {
            match self.bindings.get_mut(session_key) {
                Some(e) => {
                    if e.last_hit_at <= now && now - e.last_hit_at >= RECENT_DEBOUNCE {
                        e.last_hit_at = now;
                    }
                    if e.hit_count < u32::MAX {
                        e.hit_count = e.hit_count + 1;
                    }
                    if cached_tokens > 0 {
                        if e.total_cached_tokens > i64::MAX - cached_tokens {
                            e.total_cached_tokens = i64::MAX;
                        } else {
                            e.total_cached_tokens = e.total_cached_tokens + cached_tokens;
                        }
                    }
                },
                None => {},
            }
        } else {
            let tokens: i64 = if cached_tokens > 0 {
                cached_tokens
            } else {
                0
            };
            self.bindings.insert(
                session_key.to_owned(),
                BindingEntry {
                    account_id: account_id.to_owned(),
                    first_bound_at: now,
                    last_hit_at: now,
                    hit_count: 1,
                    total_cached_tokens: tokens,
                },
            );
        }
        assert(self@ =~= recorded(before, session_key@, account_id@, cached_tokens, now));
    }

    /// Binds a session to the account whose answer to it is complete.
    pub fn record_cache_hit(&mut self, session_key: &str, account_id: &str, cached_tokens: i64)
        requires
            old(self).wf(),
        ensures
            final(self).wf(),
            final(self).since() == old(self).since(),
            exists|now: u128|
                now <= LONGEST && final(self)@ == #[trigger] recorded(
                    old(self)@,
                    session_key@,
                    account_id@,
                    cached_tokens,
                    now,
                ),
    {
        let now: u128 = self.now();
        self.record_cache_hit_at(session_key, account_id, cached_tokens, now);
    }

    /// Whether a session is bound to an account, at a given time.
    pub fn has_active_binding_to_at(&self, account_id: &str, now: u128) -> (r: bool)
        requires
            self.wf(),
        ensures
            r == serves(self@, account_id@, now),
    {
        let count: usize = self.bindings.len();
        proof {
            crate::table::lemma_entries(self.bindings);
        }
        for i in 0..count
            invariant
                count == self.bindings.pairs().len(),
                forall|j: int|
                    0 <= j < i ==> {
                        let e = (#[trigger] self.bindings.pairs()[j]).1;
                        e.account_id@ != account_id@ || expired(e.says(), now)
                    },
                forall|j: int|
                    0 <= j < self.bindings.pairs().len() ==> self.bindings@.contains_key(
                        #[trigger] self.bindings.pairs()[j].0@,
                    ) && self.bindings@[self.bindings.pairs()[j].0@]
                        == self.bindings.pairs()[j].1,
        {
            let (name, e) = self.bindings.entry(i);
            if same_text(e.account_id.as_str(), account_id) && !(e.last_hit_at < now && now
                - e.last_hit_at > BINDING_TTL) {
                assert(self.bindings.pairs()[i as int].0@ == name@);
                assert(self@.contains_key(name@));
                assert(self@[name@] == e.says());
                return true;
            }
        }
        assert(!serves(self@, account_id@, now)) by {
            if serves(self@, account_id@, now) {
                let k = choose|k: Seq<char>| #[trigger]
                    self@.contains_key(k) && self@[k].account_id == account_id@ && !expired(
                        self@[k],
                        now,
                    );
                assert(self.bindings@.contains_key(k));
                let j = choose|j: int|
                    0 <= j < self.bindings.pairs().len() && #[trigger] self.bindings.pairs()[j].0@
                        == k;
                assert(self.bindings@[k] == self.bindings.pairs()[j].1);
                assert(self@[k] == self.bindings@[k].says());
            }
        }
        false
    }

    /// Whether a session is bound to an account.
    pub fn has_active_binding_to(&self, account_id: &str) -> (r: bool)
        requires
            self.wf(),
        ensures
            exists|now: u128| now <= LONGEST && r == #[trigger] serves(self@, account_id@, now),
    {
        let now: u128 = self.now();
        self.has_active_binding_to_at(account_id, now)
    }

    /// Drops all bindings to an account.
    pub fn invalidate_account(&mut self, account_id: &str)
        requires
            old(self).wf(),
        ensures
            final(self).wf(),
            final(self).since() == old(self).since(),
            final(self)@ == without_account(old(self)@, account_id@),
    {
        let ghost before = self@;
        let keep = |e: &BindingEntry| -> (kept: bool)
            ensures
                kept == (e.account_id@ != account_id@),
            { !same_text(e.account_id.as_str(), account_id) };
        self.bindings.retain(keep);
        assert(self@ =~= without_account(before, account_id@));
    }

    /// Drops the bindings that have expired at a given time.
    pub fn gc_at(&mut self, now: u128)
        requires
            old(self).wf(),
        ensures
            final(self).wf(),
            final(self).since() == old(self).since(),
            final(self)@ == unexpired(old(self)@, now),
    {
        let ghost before = self@;
        let keep = |e: &BindingEntry| -> (kept: bool)
            ensures
                kept == !expired(e.says(), now),
            { !(e.last_hit_at < now && now - e.last_hit_at > BINDING_TTL) };
        self.bindings.retain(keep);
        assert(self@ =~= unexpired(before, now));
    }

    /// Drops the bindings that have expired.
    pub fn gc(&mut self)
        requires
            old(self).wf(),
        ensures
            final(self).wf(),
            final(self).since() == old(self).since(),
            exists|now: u128|
                now <= LONGEST && final(self)@ == #[trigger] unexpired(old(self)@, now),
    {
        let now: u128 = self.now();
        self.gc_at(now);
    }

    /// All bindings, at a given time: each session once, in no order that
    /// matters.
    pub fn snapshot_at(&self, now: u128) -> (r: Vec<SessionBindingSnapshot>)
        requires
            self.wf(),
            now <= LONGEST,
        ensures
            shows_all(r@, self@, now),
    {
        let count: usize = self.bindings.len();
        proof {
            crate::table::lemma_entries(self.bindings);
        }
        let mut out: Vec<SessionBindingSnapshot> = Vec::new();
        for i in 0..count
            invariant
                now <= LONGEST,
                self.wf(),
                count == self.bindings.pairs().len(),
                out@.len() == i,
                forall|j: int|
                    0 <= j < i ==> (#[trigger] out@[j]).session_key@
                        == self.bindings.pairs()[j].0@ && out@[j].shows(
                        self.bindings.pairs()[j].1.says(),
                        now,
                    ),
        {
            let (name, e) = self.bindings.entry(i);
            let age: u128 = if now < e.first_bound_at {
                0
            } else {
                now - e.first_bound_at
            };
            let age_secs: u64 = (age / NANOS_PER_SECOND) as u64;
            out.push(
                SessionBindingSnapshot {
                    session_key: name.clone(),
                    account_id: e.account_id.clone(),
                    age_secs,
                    hit_count: e.hit_count,
                    total_cached_tokens: e.total_cached_tokens,
                },
            );
        }
        proof {
            assert forall|i: int| 0 <= i < out@.len() implies self@.contains_key(
                (#[trigger] out@[i]).session_key@,
            ) && out@[i].shows(self@[out@[i].session_key@], now) by {
                let p = self.bindings.pairs()[i];
                assert(self.bindings@.contains_key(p.0@) && self.bindings@[p.0@] == p.1);
            }
            assert forall|i: int, j: int| 0 <= i < j < out@.len() implies (
            #[trigger] out@[i]).session_key@ != (#[trigger] out@[j]).session_key@ by {
                assert(self.bindings.pairs()[i].0@ != self.bindings.pairs()[j].0@);
            }
            assert forall|k: Seq<char>| #[trigger] self@.contains_key(k) implies exists|i: int|
                0 <= i < out@.len() && (#[trigger] out@[i]).session_key@ == k by {
                assert(self.bindings@.contains_key(k));
                let j = choose|j: int|
                    0 <= j < self.bindings.pairs().len() && #[trigger] self.bindings.pairs()[j].0@
                        == k;
                assert(out@[j].session_key@ == k);
            }
        }
        out
    }

    /// All bindings: each session once, in no order that matters.
    pub fn snapshot(&self) -> (r: Vec<SessionBindingSnapshot>)
        requires
            self.wf(),
        ensures
            exists|now: u128| now <= LONGEST && #[trigger] shows_all(r@, self@, now),
    {
        let now: u128 = self.now();
        self.snapshot_at(now)
    }
}

/// Whether a list shows all bindings, each session once.
pub open spec fn shows_all(
    list: Seq<SessionBindingSnapshot>,
    all: Map<Seq<char>, Binding>,
    now: u128,
) -> bool {
    &&& forall|i: int|
        0 <= i < list.len() ==> all.contains_key((#[trigger] list[i]).session_key@)
            && list[i].shows(all[list[i].session_key@], now)
    &&& forall|i: int, j: int|
        0 <= i < j < list.len() ==> (#[trigger] list[i]).session_key@ != (
        #[trigger] list[j]).session_key@
    &&& forall|k: Seq<char>| #[trigger]
        all.contains_key(k) ==> exists|i: int|
            0 <= i < list.len() && (#[trigger] list[i]).session_key@ == k
}

impl Default for SessionAffinity {
    fn default() -> (r: Self)
        ensures
            r.wf(),
            r@ == Map::<Seq<char>, Binding>::empty(),
    {
        SessionAffinity::new()
    }
}

// ------------------------------------------------------------------------- laws

/// A session goes back to the account that last completed an answer to it, as
/// long as the binding lasts. Since a hit may keep the next from counting as
/// the last, that is certain for an hour less the time it keeps it.
pub proof fn session_goes_back_to_its_account(
    all: Map<Seq<char>, Binding>,
    key: Seq<char>,
    account_id: Seq<char>,
    tokens: i64,
    now: u128,
    later: u128,
)
    requires
        later - now <= BINDING_TTL - RECENT_DEBOUNCE,
    ensures
        account_of(recorded(all, key, account_id, tokens, now), key, later) == Some(account_id),
{
}

/// A first answer, or the first of another account, binds for the whole hour,
/// and no longer.
pub proof fn new_binding_lasts_an_hour(
    all: Map<Seq<char>, Binding>,
    key: Seq<char>,
    account_id: Seq<char>,
    tokens: i64,
    now: u128,
    later: u128,
)
    requires
        !all.contains_key(key) || all[key].account_id != account_id,
    ensures
        account_of(recorded(all, key, account_id, tokens, now), key, later) == if later - now
            <= BINDING_TTL {
            Some(account_id)
        } else {
            None
        },
{
}

/// An answer to one session leaves the others where they are.
pub proof fn other_sessions_stay(
    all: Map<Seq<char>, Binding>,
    key: Seq<char>,
    account_id: Seq<char>,
    tokens: i64,
    now: u128,
    other: Seq<char>,
    later: u128,
)
    requires
        other != key,
    ensures
        account_of(recorded(all, key, account_id, tokens, now), other, later) == account_of(
            all,
            other,
            later,
        ),
{
}

/// Once an account is invalidated no session is bound to it, and the bindings
/// to other accounts are as they were.
pub proof fn invalidated_account_serves_nobody(
    all: Map<Seq<char>, Binding>,
    account_id: Seq<char>,
    key: Seq<char>,
    now: u128,
)
    ensures
        !serves(without_account(all, account_id), account_id, now),
        account_of(without_account(all, account_id), key, now) == if account_of(all, key, now)
            == Some(account_id) {
            None
        } else {
            account_of(all, key, now)
        },
{
}

/// Dropping what has expired changes nothing for any session, then or later.
pub proof fn dropping_the_expired_changes_nothing(
    all: Map<Seq<char>, Binding>,
    key: Seq<char>,
    now: u128,
    later: u128,
)
    requires
        now <= later,
    ensures
        account_of(unexpired(all, now), key, later) == account_of(all, key, later),
{
}

// ----------------------------------------------------------------- session keys

/// The headers of a request, which only `header_text` looks into.
#[verifier::external_type_specification]
#[verifier::external_body]
#[verifier::reject_recursive_types(T)]
pub struct ExHeaderMap<T>(reqwest::header::HeaderMap<T>);

/// The value of a header, which is never looked into on its own.
#[verifier::external_type_specification]
#[verifier::external_body]
pub struct ExHeaderValue(reqwest::header::HeaderValue);

/// What the headers of a request say: the text of the first value under each
/// name in lower case, for those that are visible text.
pub uninterp spec fn header_texts(headers: reqwest::header::HeaderMap) -> Map<Seq<char>, Seq<char>>;

/// Calls `HeaderMap::get`, and `HeaderValue::to_str` on what it gives.
#[verifier::external_body]
fn header_text(headers: &reqwest::header::HeaderMap, name: &str) -> (r: Option<String>)
    requires
        crate::text::ascii_lowercase(name@) == name@,
    ensures
        match r {
            Some(text) => header_texts(*headers).contains_key(name@) && text@ == header_texts(
                *headers,
            )[name@],
            None => !header_texts(*headers).contains_key(name@),
        },
{
    headers.get(name).and_then(|v| v.to_str().ok()).map(|s| s.to_string())
}

/// What has been written to a hasher once a text has been hashed.
pub uninterp spec fn hashed(written: Seq<Seq<u8>>, text: Seq<char>) -> Seq<Seq<u8>>;

/// Calls `std::hash::Hash::hash` for a text. What it writes is a function of
/// the text alone.
#[verifier::external_body]
fn hash_text(text: &str, hasher: &mut std::collections::hash_map::DefaultHasher)
    ensures
        final(hasher)@ == hashed(old(hasher)@, text@),
{
    std::hash::Hash::hash(text, hasher)
}

/// The number that the standard hasher gives to two texts.
pub open spec fn digest(model: Seq<char>, prompt: Seq<char>) -> u64 {
    std::collections::hash_map::DefaultHasher::spec_finish(
        hashed(hashed(Seq::empty(), model), prompt),
    )
}

/// How much of the input tells sessions apart.
pub const PROMPT_CHARS: usize = 256;

/// The first text among the parts of a message.
pub open spec fn first_part_text(parts: Seq<JsonTree>) -> Option<Seq<char>>
    decreases parts.len(),
{
    if parts.len() == 0 {
        None
    } else {
        match parts[0].text_at("text"@) {
            Some(t) => Some(t),
            None => first_part_text(parts.skip(1)),
        }
    }
}

/// What the input of a request starts with: the input itself, or the text of
/// its first message.
pub open spec fn input_text(doc: JsonTree) -> Seq<char> {
    match doc.get("input"@) {
        Some(JsonTree::Text(s)) => s,
        Some(JsonTree::Array(messages)) => if messages.len() == 0 {
            Seq::empty()
        } else {
            match messages[0].get("content"@) {
                Some(JsonTree::Text(s)) => s,
                Some(JsonTree::Array(parts)) => match first_part_text(parts) {
                    Some(t) => t,
                    None => Seq::empty(),
                },
                _ => Seq::empty(),
            }
        },
        _ => Seq::empty(),
    }
}

/// A text that is not empty.
pub open spec fn given(text: Option<Seq<char>>) -> Option<Seq<char>> {
    match text {
        Some(t) => if t.len() > 0 {
            Some(t)
        } else {
            None
        },
        None => None,
    }
}

/// The first header that is given.
pub open spec fn first_given(headers: Seq<Option<Seq<char>>>) -> Option<Seq<char>>
    decreases headers.len(),
{
    if headers.len() == 0 {
        None
    } else {
        match given(headers[0]) {
            Some(t) => Some(t),
            None => first_given(headers.skip(1)),
        }
    }
}

/// The model that a request names.
pub open spec fn model_of(doc: JsonTree) -> Seq<char> {
    match doc.text_at("model"@) {
        Some(m) => m,
        None => ""@,
    }
}

/// What tells the session of a request from others: the key under which its
/// prompts are cached, the response that it goes on from, a header, or else
/// what its input starts with.
pub open spec fn key_of(doc: Option<JsonTree>, headers: Seq<Option<Seq<char>>>) -> Option<
    Seq<char>,
> {
    let cache_key = match doc {
        Some(d) => given(d.text_at("prompt_cache_key"@)),
        None => None,
    };
    let previous = match doc {
        Some(d) => given(d.text_at("previous_response_id"@)),
        None => None,
    };
    if cache_key is Some {
        Some("pck:"@ + cache_key->Some_0)
    } else if previous is Some {
        Some("prev:"@ + previous->Some_0)
    } else if first_given(headers) is Some {
        Some("hdr:"@ + first_given(headers)->Some_0)
    } else {
        match doc {
            Some(d) => if input_text(d).len() > 0 {
                Some(
                    "hash:"@ + crate::text::hex(
                        digest(
                            model_of(d),
                            crate::text::head(input_text(d), PROMPT_CHARS as int),
                        ) as nat,
                        16,
                        false,
                    ),
                )
            } else {
                None
            },
            None => None,
        }
    }
}

/// Requests with the same key for their cached prompts belong to the same
/// session, whatever else they hold, and requests with different ones do not.
pub proof fn cache_key_decides_the_session(
    a: JsonTree,
    b: JsonTree,
    headers: Seq<Option<Seq<char>>>,
    others: Seq<Option<Seq<char>>>,
)
    requires
        given(a.text_at("prompt_cache_key"@)) is Some,
        given(b.text_at("prompt_cache_key"@)) is Some,
    ensures
        key_of(Some(a), headers) == key_of(Some(b), others) <==> a.text_at("prompt_cache_key"@)
            == b.text_at("prompt_cache_key"@),
{
    let x = a.text_at("prompt_cache_key"@)->Some_0;
    let y = b.text_at("prompt_cache_key"@)->Some_0;
    let front = "pck:"@;
    assert((front + x).skip(front.len() as int) =~= x);
    assert((front + y).skip(front.len() as int) =~= y);
}

/// Where the keys of two requests come from different places, they differ: a
/// key for cached prompts is never taken for a response, a header or an input.
pub proof fn keys_from_different_places_differ(a: Seq<char>, b: Seq<char>)
    ensures
        "pck:"@ + a != "prev:"@ + b,
        "pck:"@ + a != "hdr:"@ + b,
        "pck:"@ + a != "hash:"@ + b,
        "prev:"@ + a != "hdr:"@ + b,
        "prev:"@ + a != "hash:"@ + b,
        "hdr:"@ + a != "hash:"@ + b,
{
    reveal_strlit("pck:");
    reveal_strlit("prev:");
    reveal_strlit("hdr:");
    reveal_strlit("hash:");
    assert(("pck:"@ + a)[0] == 'p' && ("pck:"@ + a)[1] == 'c');
    assert(("prev:"@ + a)[0] == 'p' && ("prev:"@ + b)[1] == 'r');
    assert(("prev:"@ + b)[0] == 'p');
    assert(("hdr:"@ + a)[0] == 'h' && ("hdr:"@ + a)[1] == 'd');
    assert(("hdr:"@ + b)[0] == 'h');
    assert(("hash:"@ + b)[0] == 'h' && ("hash:"@ + b)[1] == 'a');
}

pub open spec fn opt_texts(v: Seq<Option<String>>) -> Seq<Option<Seq<char>>> {
    Seq::new(v.len(), |i: int| crate::text::opt_text(v[i]))
}

fn find_part_text(parts: &Vec<Json>) -> (r: Option<String>)
    ensures
        crate::text::opt_text(r) == first_part_text(crate::json::trees(parts@)),
{
    let ghost all = crate::json::trees(parts@);
    assert(all.skip(0) =~= all);
    for i in 0..parts.len()
        invariant
            all == crate::json::trees(parts@),
            first_part_text(all) == first_part_text(all.skip(i as int)),
    {
        let ghost rest = all.skip(i as int);
        assert(rest[0] == parts@[i as int]@);
        assert(rest.skip(1) =~= all.skip(i + 1));
        match parts[i].text_under("text") {
            Some(t) => {
                return Some(t);
            },
            None => {},
        }
    }
    None
}

fn find_input_text(doc: &Json) -> (r: String)
    ensures
        r@ == input_text(doc@),
{
    match doc.get("input") {
        Some(Json::Text(s)) => s.clone(),
        Some(Json::Array(messages)) => {
            assert(doc@.get("input"@) == Some(JsonTree::Array(crate::json::trees(messages@))));
            if messages.len() == 0 {
                return String::new();
            }
            assert(crate::json::trees(messages@)[0] == messages@[0]@);
            match messages[0].get("content") {
                Some(Json::Text(s)) => s.clone(),
                Some(Json::Array(parts)) => {
                    assert(messages@[0]@.get("content"@) == Some(
                        JsonTree::Array(crate::json::trees(parts@)),
                    ));
                    match find_part_text(parts) {
                        Some(t) => t,
                        None => String::new(),
                    }
                },
                _ => String::new(),
            }
        },
        _ => String::new(),
    }
}

fn text_given(text: Option<String>) -> (r: Option<String>)
    ensures
        crate::text::opt_text(r) == given(crate::text::opt_text(text)),
{
    match text {
        Some(t) => if t.as_str().is_empty() {
            None
        } else {
            Some(t)
        },
        None => None,
    }
}

fn find_given(headers: &Vec<Option<String>>) -> (r: Option<String>)
    ensures
        crate::text::opt_text(r) == first_given(opt_texts(headers@)),
{
    let ghost all = opt_texts(headers@);
    assert(all.skip(0) =~= all);
    for i in 0..headers.len()
        invariant
            all == opt_texts(headers@),
            first_given(all) == first_given(all.skip(i as int)),
    {
        let ghost rest = all.skip(i as int);
        assert(rest[0] == crate::text::opt_text(headers@[i as int]));
        assert(rest.skip(1) =~= all.skip(i + 1));
        match text_given(crate::text::copy_opt(&headers[i])) {
            Some(t) => {
                return Some(t);
            },
            None => {},
        }
    }
    None
}

/// What tells the session of a request from others, given its document and the
/// texts of the headers that may name a session.
pub fn session_key(doc: &Option<Json>, headers: &Vec<Option<String>>) -> (r: Option<String>)
    ensures
        crate::text::opt_text(r) == key_of(
            match *doc {
                Some(d) => Some(d@),
                None => None,
            },
            opt_texts(headers@),
        ),
{
    if let Some(d) = doc {
        if let Some(s) = text_given(d.text_under("prompt_cache_key")) {
            return Some(joined("pck:", s.as_str()));
        }
        if let Some(s) = text_given(d.text_under("previous_response_id")) {
            return Some(joined("prev:", s.as_str()));
        }
    }
    if let Some(s) = find_given(headers) {
        return Some(joined("hdr:", s.as_str()));
    }
    if let Some(d) = doc {
        let model = match d.text_under("model") {
            Some(m) => m,
            None => "".to_owned(),
        };
        let input = find_input_text(d);
        if !input.as_str().is_empty() {
            let prompt = take_head(input.as_str(), PROMPT_CHARS);
            let mut hasher = std::collections::hash_map::DefaultHasher::new();
            hash_text(model.as_str(), &mut hasher);
            hash_text(prompt.as_str(), &mut hasher);
            let h: u64 = std::hash::Hasher::finish(&hasher);
            return Some(joined("hash:", write_hex(h, 16, false).as_str()));
        }
    }
    None
}

/// The document of a request.
pub open spec fn request_document(body: Seq<u8>) -> Option<JsonTree> {
    match crate::json::json_document(body) {
        Ok(tree) => Some(tree),
        Err(_) => None,
    }
}

/// What a header says.
pub open spec fn header_of(headers: Map<Seq<char>, Seq<char>>, name: Seq<char>) -> Option<
    Seq<char>,
> {
    if headers.contains_key(name) {
        Some(headers[name])
    } else {
        None
    }
}

/// What tells the session of a request from others.
pub fn extract_session_key(body: &[u8], headers: &reqwest::header::HeaderMap) -> (r: Option<String>)
    ensures
        crate::text::opt_text(r) == key_of(
            request_document(body@),
            seq![
                header_of(header_texts(*headers), "session_id"@),
                header_of(header_texts(*headers), "session-id"@),
                header_of(header_texts(*headers), "x-session-id"@),
            ],
        ),
{
    let doc = match read_json(body) {
        Ok(d) => Some(d),
        Err(_) => None,
    };
    proof {
        reveal_strlit("session_id");
        reveal_strlit("session-id");
        reveal_strlit("x-session-id");
        assert(crate::text::ascii_lowercase("session_id"@) =~= "session_id"@);
        assert(crate::text::ascii_lowercase("session-id"@) =~= "session-id"@);
        assert(crate::text::ascii_lowercase("x-session-id"@) =~= "x-session-id"@);
    }
    let mut named: Vec<Option<String>> = Vec::new();
    named.push(header_text(headers, "session_id"));
    named.push(header_text(headers, "session-id"));
    named.push(header_text(headers, "x-session-id"));
    assert(opt_texts(named@) =~= seq![
        header_of(header_texts(*headers), "session_id"@),
        header_of(header_texts(*headers), "session-id"@),
        header_of(header_texts(*headers), "x-session-id"@),
    ]);
    session_key(&doc, &named)
}

// ----------------------------------------------------- laws on bindings and keys

/// A session is bound to an account for an hour from its last hit, and no longer.
pub proof fn binding_lasts_an_hour_from_its_last_hit(
    all: Map<Seq<char>, Binding>,
    key: Seq<char>,
    now: u128,
)
    ensures
        all.contains_key(key) && now - all[key].last_hit_at <= 3_600_000_000_000 ==> account_of(
            all,
            key,
            now,
        ) == Some(all[key].account_id) && serves(all, all[key].account_id, now),
        all.contains_key(key) && now - all[key].last_hit_at > 3_600_000_000_000 ==> account_of(
            all,
            key,
            now,
        ) is None,
        !all.contains_key(key) ==> account_of(all, key, now) is None,
{
}

/// An account serves somebody just where some session is bound to it.
pub proof fn account_serves_whom_is_bound_to_it(
    all: Map<Seq<char>, Binding>,
    account_id: Seq<char>,
    now: u128,
)
    ensures
        serves(all, account_id, now) <==> exists|key: Seq<char>| #[trigger]
            account_of(all, key, now) == Some(account_id),
{
    if serves(all, account_id, now) {
        let k = choose|k: Seq<char>| #[trigger]
            all.contains_key(k) && all[k].account_id == account_id && !expired(all[k], now);
        assert(account_of(all, k, now) == Some(account_id));
    }
    if exists|key: Seq<char>| #[trigger] account_of(all, key, now) == Some(account_id) {
        let k = choose|key: Seq<char>| #[trigger] account_of(all, key, now) == Some(account_id);
        assert(all.contains_key(k));
    }
}

/// One more answer of the same account counts one more hit and adds the tokens
/// that were cached, up to the most that can be counted. It keeps when the
/// session was first bound, and counts as the last hit where the one before is 30
/// seconds ago.
pub proof fn answer_of_the_same_account_is_counted(
    all: Map<Seq<char>, Binding>,
    key: Seq<char>,
    tokens: i64,
    now: u128,
)
    requires
        all.contains_key(key),
    ensures
        ({
            let known = all[key];
            let b = recorded(all, key, known.account_id, tokens, now)[key];
            &&& b.account_id == known.account_id
            &&& b.first_bound_at == known.first_bound_at
            &&& known.hit_count < u32::MAX ==> b.hit_count == known.hit_count + 1
            &&& known.hit_count == u32::MAX ==> b.hit_count == u32::MAX
            &&& tokens <= 0 ==> b.total_cached_tokens == known.total_cached_tokens
            &&& tokens > 0 && known.total_cached_tokens + tokens <= i64::MAX
                ==> b.total_cached_tokens == known.total_cached_tokens + tokens
            &&& tokens > 0 && known.total_cached_tokens + tokens > i64::MAX
                ==> b.total_cached_tokens == i64::MAX
            &&& now - known.last_hit_at >= 30_000_000_000 ==> b.last_hit_at == now
            &&& now - known.last_hit_at < 30_000_000_000 ==> b.last_hit_at == known.last_hit_at
        }),
{
}

/// A first answer, or the first of another account, begins a binding anew: with
/// one hit, the tokens of this answer, and the present time.
pub proof fn answer_of_another_account_begins_anew(
    all: Map<Seq<char>, Binding>,
    key: Seq<char>,
    account_id: Seq<char>,
    tokens: i64,
    now: u128,
)
    requires
        !all.contains_key(key) || all[key].account_id != account_id,
    ensures
        ({
            let after = recorded(all, key, account_id, tokens, now);
            let b = after[key];
            &&& after.dom() == all.dom().insert(key)
            &&& b.account_id == account_id
            &&& b.first_bound_at == now && b.last_hit_at == now
            &&& b.hit_count == 1
            &&& tokens > 0 ==> b.total_cached_tokens == tokens
            &&& tokens <= 0 ==> b.total_cached_tokens == 0
        }),
{
}

/// Recording an answer, invalidating an account and dropping what has expired
/// leave every other binding just as it is.
pub proof fn other_bindings_are_left_as_they_are(
    all: Map<Seq<char>, Binding>,
    key: Seq<char>,
    account_id: Seq<char>,
    tokens: i64,
    now: u128,
    other: Seq<char>,
)
    requires
        all.contains_key(other),
    ensures
        other != key ==> recorded(all, key, account_id, tokens, now).contains_key(other)
            && recorded(all, key, account_id, tokens, now)[other] == all[other],
        all[other].account_id != account_id ==> without_account(all, account_id).contains_key(other)
            && without_account(all, account_id)[other] == all[other],
        all[other].account_id == account_id ==> !without_account(all, account_id).contains_key(
            other,
        ),
        now - all[other].last_hit_at <= 3_600_000_000_000 ==> unexpired(all, now).contains_key(
            other,
        ) && unexpired(all, now)[other] == all[other],
        now - all[other].last_hit_at > 3_600_000_000_000 ==> !unexpired(all, now).contains_key(
            other,
        ),
{
}

/// What is shown of a binding is its account, its hits and its tokens, and for
/// how many whole seconds it has been there.
pub proof fn binding_is_shown_as_it_is(
    shown: SessionBindingSnapshot,
    b: Binding,
    now: u128,
)
    requires
        shown.shows(b, now),
    ensures
        shown.account_id@ == b.account_id,
        shown.hit_count == b.hit_count,
        shown.total_cached_tokens == b.total_cached_tokens,
        b.first_bound_at <= now ==> shown.age_secs * 1_000_000_000 <= now - b.first_bound_at < (
        shown.age_secs + 1) * 1_000_000_000,
        now < b.first_bound_at ==> shown.age_secs == 0,
{
}

/// A list that shows all bindings shows each session that is bound, with its
/// binding, and no session twice.
pub proof fn every_binding_is_shown_once(
    list: Seq<SessionBindingSnapshot>,
    all: Map<Seq<char>, Binding>,
    now: u128,
    key: Seq<char>,
)
    requires
        shows_all(list, all, now),
    ensures
        all.contains_key(key) <==> exists|i: int|
            0 <= i < list.len() && (#[trigger] list[i]).session_key@ == key,
        forall|i: int|
            0 <= i < list.len() && (#[trigger] list[i]).session_key@ == key ==> list[i].shows(
                all[key],
                now,
            ),
        forall|i: int, j: int|
            0 <= i < list.len() && 0 <= j < list.len() && (#[trigger] list[i]).session_key@ == key
                && (#[trigger] list[j]).session_key@ == key ==> i == j,
{
}

/// Whether a request has a text under a name, and one that is not empty.
pub open spec fn says_under(doc: Option<JsonTree>, name: Seq<char>, text: Seq<char>) -> bool {
    doc is Some && doc->Some_0.get(name) == Some(JsonTree::Text(text)) && text.len() > 0
}

/// The session of a request is told by the key for its cached prompts, or else by
/// the response that it goes on from, or else by the first header that is not
/// empty.
pub proof fn session_is_told_by_the_first_that_is_given(
    doc: Option<JsonTree>,
    headers: Seq<Option<Seq<char>>>,
    text: Seq<char>,
    i: int,
)
    ensures
        ({
            let no_key = forall|t: Seq<char>| !#[trigger] says_under(doc, "prompt_cache_key"@, t);
            let no_response = forall|t: Seq<char>|
                !#[trigger] says_under(doc, "previous_response_id"@, t);
            &&& says_under(doc, "prompt_cache_key"@, text) ==> key_of(doc, headers) == Some(
                "pck:"@ + text,
            )
            &&& no_key && says_under(doc, "previous_response_id"@, text) ==> key_of(doc, headers)
                == Some("prev:"@ + text)
            &&& no_key && no_response && 0 <= i < headers.len() && headers[i] == Some(text)
                && text.len() > 0 && (forall|j: int|
                0 <= j < i ==> (#[trigger] headers[j]) is None || headers[j]->Some_0.len() == 0)
                ==> key_of(doc, headers) == Some("hdr:"@ + text)
        }),
{
    lemma_given_under(doc, "prompt_cache_key"@);
    lemma_given_under(doc, "previous_response_id"@);
    lemma_first_header(headers, i);
}

proof fn lemma_given_under(doc: Option<JsonTree>, name: Seq<char>)
    ensures
        (forall|t: Seq<char>| !#[trigger] says_under(doc, name, t)) ==> doc is None || given(
            doc->Some_0.text_at(name),
        ) is None,
{
    if doc is Some {
        if let Some(t) = given(doc->Some_0.text_at(name)) {
            assert(says_under(doc, name, t));
        }
    }
}

proof fn lemma_first_header(headers: Seq<Option<Seq<char>>>, i: int)
    ensures
        0 <= i < headers.len() && headers[i] is Some && headers[i]->Some_0.len() > 0 && (forall|
            j: int,
        |
            0 <= j < i ==> (#[trigger] headers[j]) is None || headers[j]->Some_0.len() == 0)
            ==> first_given(headers) == headers[i],
        (forall|j: int|
            0 <= j < headers.len() ==> (#[trigger] headers[j]) is None || headers[j]->Some_0.len()
                == 0) ==> first_given(headers) is None,
    decreases headers.len(),
{
    if headers.len() > 0 {
        let rest = headers.skip(1);
        lemma_first_header(rest, i - 1);
        assert(forall|j: int| 0 <= j < rest.len() ==> #[trigger] rest[j] == headers[j + 1]);
    }
}

/// Where a request and its headers name no session, it is told by the model and
/// the first 256 characters of the input, in sixteen digits; where there is no
/// input, it is not told at all.
pub proof fn session_is_told_by_its_input(
    doc: JsonTree,
    headers: Seq<Option<Seq<char>>>,
    input: Seq<char>,
    model: Seq<char>,
)
    requires
        forall|t: Seq<char>| !#[trigger] says_under(Some(doc), "prompt_cache_key"@, t),
        forall|t: Seq<char>| !#[trigger] says_under(Some(doc), "previous_response_id"@, t),
        forall|j: int|
            0 <= j < headers.len() ==> (#[trigger] headers[j]) is None || headers[j]->Some_0.len()
                == 0,
        input == input_text(doc),
        doc.get("model"@) == Some(JsonTree::Text(model)) || (doc.text_at("model"@) is None && model
            == ""@),
    ensures
        input.len() == 0 ==> key_of(Some(doc), headers) is None,
        0 < input.len() <= 256 ==> key_of(Some(doc), headers) == Some(
            "hash:"@ + crate::text::hex(digest(model, input) as nat, 16, false),
        ),
        256 < input.len() ==> key_of(Some(doc), headers) == Some(
            "hash:"@ + crate::text::hex(digest(model, input.take(256)) as nat, 16, false),
        ),
        key_of(None, headers) is None,
{
    lemma_given_under(Some(doc), "prompt_cache_key"@);
    lemma_given_under(Some(doc), "previous_response_id"@);
    lemma_first_header(headers, -1);
}

/// The input of a request is a text, or what its first message says: its content,
/// where that is a text, or else the first text among its parts.
pub proof fn input_is_the_first_text(
    doc: JsonTree,
    text: Seq<char>,
    messages: Seq<JsonTree>,
    parts: Seq<JsonTree>,
    i: int,
)
    ensures
        doc.get("input"@) == Some(JsonTree::Text(text)) ==> input_text(doc) == text,
        doc.get("input"@) == Some(JsonTree::Array(messages)) && messages.len() > 0
            && messages[0].get("content"@) == Some(JsonTree::Text(text)) ==> input_text(doc)
            == text,
        doc.get("input"@) == Some(JsonTree::Array(messages)) && messages.len() > 0
            && messages[0].get("content"@) == Some(JsonTree::Array(parts)) && 0 <= i < parts.len()
            && parts[i].get("text"@) == Some(JsonTree::Text(text)) && (forall|j: int|
            0 <= j < i ==> (#[trigger] parts[j]).text_at("text"@) is None) ==> input_text(doc)
            == text,
        doc.get("input"@) is None ==> input_text(doc).len() == 0,
        doc.get("input"@) == Some(JsonTree::Array(Seq::empty())) ==> input_text(doc).len() == 0,
{
    lemma_first_part(parts, i);
}

proof fn lemma_first_part(parts: Seq<JsonTree>, i: int)
    ensures
        0 <= i < parts.len() && parts[i].text_at("text"@) is Some && (forall|j: int|
            0 <= j < i ==> (#[trigger] parts[j]).text_at("text"@) is None) ==> first_part_text(
            parts,
        ) == parts[i].text_at("text"@),
    decreases parts.len(),
{
    if parts.len() > 0 {
        let rest = parts.skip(1);
        lemma_first_part(rest, i - 1);
        assert(forall|j: int| 0 <= j < rest.len() ==> #[trigger] rest[j] == parts[j + 1]);
    }
}

/// A request has the document that is read in its body, and a header says what
/// is there under its name.
pub proof fn request_is_read_in_its_body(
    body: Seq<u8>,
    doc: JsonTree,
    headers: Map<Seq<char>, Seq<char>>,
    name: Seq<char>,
)
    ensures
        request_document(body) == Some(doc) <==> crate::json::json_document(body) == Ok::<
            JsonTree,
            Seq<char>,
        >(doc),
        headers.contains_key(name) ==> header_of(headers, name) == Some(headers[name]),
        !headers.contains_key(name) ==> header_of(headers, name) is None,
{
}

/// The headers that may name a session are told one by one.
pub proof fn headers_are_told_one_by_one(headers: Seq<Option<String>>, i: int)
    ensures
        opt_texts(headers).len() == headers.len(),
        0 <= i < headers.len() ==> opt_texts(headers)[i] == crate::text::opt_text(headers[i]),
{
}

/// The model goes into the number of an input before the input does, into a
/// hasher to which nothing was written.
pub proof fn model_is_hashed_before_the_input(model: Seq<char>, input: Seq<char>)
    ensures
        digest(model, input) == std::collections::hash_map::DefaultHasher::spec_finish(
            hashed(hashed(Seq::empty(), model), input),
        ),
{
}

} // verus!
