//! The quota that Codex itself writes into the files of its sessions.
//!
//! The file last written is followed line by line, and what its lines say of
//! the quota goes to the account in use.
use crate::account::{AccountStore, CachedQuota, Holder, Holders, Quota};
use crate::clock::{utc_now, Timestamp, LAST_SECOND};
use crate::figures::{number_figure, parse_number, parse_whole, Reading, Readings};
use crate::json::{read_json_text, Json, JsonTree};
use crate::text::{
    copy_opt, finishes_with, joined, joined3, or_text, same_text, trim, write_decimal, Edge,
};
use crate::usage::{Usage, UsageDisplay, Window};
use vstd::prelude::*;
use vstd::utf8::encode_utf8;

verus! {

// ------------------------------------------------------------------- following

/// How far a file has been read.
#[derive(Clone, Debug)]
pub struct RolloutCursor {
    pub path: String,
    pub offset: u64,
}

pub open spec fn cursor_of(c: Option<RolloutCursor>) -> Option<(Seq<char>, u64)> {
    match c {
        Some(c) => Some((c.path@, c.offset)),
        None => None,
    }
}

/// Where to go on reading a file: where the reading stopped, or at the start of
/// another file.
pub fn follow(cursor: Option<RolloutCursor>, path: &str) -> (r: RolloutCursor)
    ensures
        r.path@ == path@,
        r.offset == match cursor_of(cursor) {
            Some(c) => if c.0 == path@ {
                c.1
            } else {
                0
            },
            None => 0,
        },
{
    match cursor {
        Some(c) => if same_text(c.path.as_str(), path) {
            c
        } else {
            RolloutCursor { path: path.to_owned(), offset: 0 }
        },
        None => RolloutCursor { path: path.to_owned(), offset: 0 },
    }
}

impl RolloutCursor {
    /// Whether there is something to be read in a file of this length. One that
    /// has become shorter is read from its start.
    pub fn due(&mut self, len: u64) -> (r: bool)
        ensures
            final(self).path@ == old(self).path@,
            final(self).offset == if len < old(self).offset {
                0
            } else {
                old(self).offset
            },
            r == (final(self).offset != len),
    {
        if len < self.offset {
            self.offset = 0;
        }
        self.offset != len
    }
}

// ---------------------------------------------------------------- rate limits

/// What a line says of one window. What is used and what is left of it are in
/// whole percent.
#[derive(Clone, Copy, Debug, PartialEq, Eq, Structural)]
pub struct WindowSnapshot {
    pub used: i32,
    pub left: i32,
    pub reset_at: Option<i64>,
    pub window_minutes: Option<i64>,
}

/// What a line says of the quota. The balance is the text of a number.
#[derive(Clone, Debug)]
pub struct RateLimitSnapshot {
    pub primary: WindowSnapshot,
    pub secondary: WindowSnapshot,
    pub plan_type: Option<String>,
    pub has_credits: bool,
    pub credits_balance: Option<String>,
}

/// What a `RateLimitSnapshot` says.
pub ghost struct Limits {
    pub primary: WindowSnapshot,
    pub secondary: WindowSnapshot,
    pub plan_type: Option<Seq<char>>,
    pub has_credits: bool,
    pub credits_balance: Option<Seq<char>>,
}

impl View for RateLimitSnapshot {
    type V = Limits;

    open spec fn view(&self) -> Limits {
        Limits {
            primary: self.primary,
            secondary: self.secondary,
            plan_type: crate::text::opt_text(self.plan_type),
            has_credits: self.has_credits,
            credits_balance: crate::text::opt_text(self.credits_balance),
        }
    }
}

/// A number held between 0 and 100.
pub open spec fn percent(n: int) -> int {
    if n < 0 {
        0
    } else if n > 100 {
        100
    } else {
        n
    }
}

fn to_percent(n: i32) -> (r: i32)
    ensures
        r == percent(n as int),
{
    if n < 0 {
        0
    } else if n > 100 {
        100
    } else {
        n
    }
}

/// The whole number that a value stands for: its own, that of a decimal without
/// its fraction, or that of a text.
pub open spec fn whole_of(v: Option<JsonTree>, readings: Map<Seq<char>, Reading>) -> Option<int> {
    match v {
        Some(JsonTree::Int(n)) => Some(n),
        Some(JsonTree::Decimal(_)) => match crate::figures::reading(v, readings) {
            Some(x) => Some(x.whole as int),
            None => None,
        },
        Some(JsonTree::Text(s)) => crate::figures::small_whole_number(s),
        _ => None,
    }
}

/// Whether two whole numbers are the same, one of them of 64 bits.
pub open spec fn same_whole(a: Option<i64>, b: Option<int>) -> bool {
    match a {
        Some(n) => b == Some(n as int),
        None => b is None,
    }
}

fn number_to_i64(v: Option<&Json>, readings: &Readings) -> (r: Option<i64>)
    requires
        readings.wf(),
    ensures
        same_whole(r, whole_of(crate::json::opt_tree(v), readings@)),
{
    match v {
        Some(Json::Int(n)) => Some(*n),
        Some(Json::Decimal(_)) => match parse_number(v, readings) {
            Some(x) => Some(x.whole),
            None => None,
        },
        Some(Json::Text(s)) => parse_whole(s.as_str()),
        _ => None,
    }
}

/// Whether a window is what a document says of one: what is used of it has to
/// read as a finite number.
pub open spec fn says_window(
    w: WindowSnapshot,
    doc: JsonTree,
    readings: Map<Seq<char>, Reading>,
) -> bool {
    let used = crate::figures::reading(doc.get("used_percent"@), readings);
    &&& used is Some && used->Some_0.finite
    &&& w.used == percent(used->Some_0.ceiling as int)
    &&& w.left == percent(used->Some_0.left_of_hundred as int)
    &&& same_whole(w.reset_at, whole_of(doc.get("resets_at"@), readings))
    &&& same_whole(w.window_minutes, whole_of(doc.get("window_minutes"@), readings))
}

/// Whether a document says how much of a window is used.
pub open spec fn tells_window(doc: JsonTree, readings: Map<Seq<char>, Reading>) -> bool {
    let used = crate::figures::reading(doc.get("used_percent"@), readings);
    used is Some && used->Some_0.finite
}

fn parse_window(doc: &Json, readings: &Readings) -> (r: Option<WindowSnapshot>)
    requires
        readings.wf(),
    ensures
        match r {
            Some(w) => says_window(w, doc@, readings@),
            None => !tells_window(doc@, readings@),
        },
{
    match parse_number(doc.get("used_percent"), readings) {
        Some(x) => if x.finite {
            Some(
                WindowSnapshot {
                    used: to_percent(x.ceiling),
                    left: to_percent(x.left_of_hundred),
                    reset_at: number_to_i64(doc.get("resets_at"), readings),
                    window_minutes: number_to_i64(doc.get("window_minutes"), readings),
                },
            )
        } else {
            None
        },
        None => None,
    }
}

/// The part of a line that speaks of the quota.
pub open spec fn limits_part(doc: JsonTree) -> Option<JsonTree> {
    match doc.get_in("payload"@, "rate_limits"@) {
        Some(l) => Some(l),
        None => doc.get("rate_limits"@),
    }
}

/// Whether a line says what is used of both windows.
pub open spec fn tells_limits(doc: JsonTree, readings: Map<Seq<char>, Reading>) -> bool {
    match limits_part(doc) {
        Some(limits) => match (limits.get("primary"@), limits.get("secondary"@)) {
            (Some(p), Some(s)) => tells_window(p, readings) && tells_window(s, readings),
            _ => false,
        },
        None => false,
    }
}

/// A text, trimmed, unless nothing is left of it.
pub open spec fn trimmed_plan(text: Option<Seq<char>>) -> Option<Seq<char>> {
    match text {
        Some(t) => if crate::text::trimmed(t, Edge::Space).len() > 0 {
            Some(crate::text::trimmed(t, Edge::Space))
        } else {
            None
        },
        None => None,
    }
}

/// The part that speaks of credits.
pub open spec fn credits_part(limits: JsonTree) -> JsonTree {
    match limits.get("credits"@) {
        Some(c) => c,
        None => JsonTree::Null,
    }
}

/// Whether a snapshot is what a line says.
pub open spec fn says_limits(
    snap: Limits,
    doc: JsonTree,
    readings: Map<Seq<char>, Reading>,
) -> bool {
    let limits = limits_part(doc)->Some_0;
    let credits = credits_part(limits);
    &&& tells_limits(doc, readings)
    &&& says_window(snap.primary, limits.get("primary"@)->Some_0, readings)
    &&& says_window(snap.secondary, limits.get("secondary"@)->Some_0, readings)
    &&& snap.plan_type == trimmed_plan(limits.text_at("plan_type"@))
    &&& snap.has_credits == (credits.flag_at("has_credits"@) == Some(true) || credits.flag_at(
        "unlimited"@,
    ) == Some(true))
    &&& snap.credits_balance == crate::figures::read_figure(credits.get("balance"@), readings)
}

fn flag(doc: Option<&Json>, name: &str) -> (r: bool)
    ensures
        r == match crate::json::opt_tree(doc) {
            Some(d) => d.flag_at(name@) == Some(true),
            None => false,
        },
{
    match doc {
        Some(d) => match d.flag_under(name) {
            Some(b) => b,
            None => false,
        },
        None => false,
    }
}

/// What a line says of the quota, given what its numbers read as. It says
/// nothing where one of the windows is missing, or what is used of it.
pub fn parse_rate_limits(doc: &Json, readings: &Readings) -> (r: Option<RateLimitSnapshot>)
    requires
        readings.wf(),
    ensures
        match r {
            Some(snap) => says_limits(snap@, doc@, readings@),
            None => !tells_limits(doc@, readings@),
        },
{
    let found = match doc.get_inner("payload", "rate_limits") {
        Some(l) => Some(l),
        None => doc.get("rate_limits"),
    };
    let limits = match found {
        Some(l) => l,
        None => {
            return None;
        },
    };
    let (primary, secondary) = match (limits.get("primary"), limits.get("secondary")) {
        (Some(p), Some(s)) => (parse_window(p, readings), parse_window(s, readings)),
        _ => {
            return None;
        },
    };
    let (primary, secondary) = match (primary, secondary) {
        (Some(p), Some(s)) => (p, s),
        _ => {
            return None;
        },
    };
    let credits = limits.get("credits");
    let has_credits = flag(credits, "has_credits") || flag(credits, "unlimited");
    let balance = match credits {
        Some(c) => number_figure(c.get("balance"), readings),
        None => None,
    };
    let plan_type = match limits.text_under("plan_type") {
        Some(p) => {
            let t = trim(p.as_str(), Edge::Space);
            if t.as_str().is_empty() {
                None
            } else {
                Some(t)
            }
        },
        None => None,
    };
    Some(RateLimitSnapshot { primary, secondary, plan_type, has_credits, credits_balance: balance })
}

// ------------------------------------------------------------------- new lines

/// Whether reading stops at a line: it holds no document, and its end is not
/// there yet, so that it may still be being written.
pub open spec fn unfinished(line: Seq<char>) -> bool {
    let t = crate::text::trimmed(line, Edge::Space);
    t.len() > 0 && crate::json::json_of_text(t) is Err && !crate::text::ends_with(line, "\n"@)
}

/// How many of the lines are read: all up to one that is unfinished.
pub open spec fn lines_read(lines: Seq<Seq<char>>) -> nat
    decreases lines.len(),
{
    if lines.len() == 0 || unfinished(lines[0]) {
        0
    } else {
        1 + lines_read(lines.skip(1))
    }
}

/// How many bytes the first `n` of the lines take.
pub open spec fn bytes_of(lines: Seq<Seq<char>>, n: nat) -> nat
    decreases n,
{
    if n == 0 || n > lines.len() {
        0
    } else {
        bytes_of(lines, (n - 1) as nat) + encode_utf8(lines[n - 1]).len()
    }
}

/// Whether a line says something of the quota.
pub open spec fn line_tells(line: Seq<char>, readings: Map<Seq<char>, Reading>) -> bool {
    let t = crate::text::trimmed(line, Edge::Space);
    t.len() > 0 && match crate::json::json_of_text(t) {
        Ok(doc) => tells_limits(doc, readings),
        Err(_) => false,
    }
}

/// The lines, of the first `n`, that say something of the quota.
pub open spec fn telling_lines(
    lines: Seq<Seq<char>>,
    readings: Map<Seq<char>, Reading>,
    n: nat,
) -> Seq<Seq<char>>
    decreases n,
{
    if n == 0 || n > lines.len() {
        Seq::empty()
    } else {
        let before = telling_lines(lines, readings, (n - 1) as nat);
        if line_tells(lines[n - 1], readings) {
            before.push(lines[n - 1])
        } else {
            before
        }
    }
}

/// Whether the snapshots are what the lines say, one of each in their order.
pub open spec fn says_lines(
    snaps: Seq<RateLimitSnapshot>,
    lines: Seq<Seq<char>>,
    readings: Map<Seq<char>, Reading>,
) -> bool {
    &&& snaps.len() == lines.len()
    &&& forall|i: int|
        0 <= i < snaps.len() ==> says_limits(
            (#[trigger] snaps[i])@,
            crate::json::json_of_text(crate::text::trimmed(lines[i], Edge::Space))->Ok_0,
            readings,
        )
}

/// Reads the new lines of a file, given what their numbers read as: what they
/// say of the quota, and where to go on. A line whose end is missing is left
/// for later.
pub fn read_new_snapshots(cursor: &mut RolloutCursor, lines: &Vec<String>, readings: &Readings) -> (r:
    Vec<RateLimitSnapshot>)
    requires
        readings.wf(),
        old(cursor).offset + bytes_of(crate::text::texts(lines@), lines@.len()) <= u64::MAX,
    ensures
        ({
            let all = crate::text::texts(lines@);
            let n = lines_read(all);
            &&& says_lines(r@, telling_lines(all, readings@, n), readings@)
            &&& final(cursor).offset == old(cursor).offset + bytes_of(all, n)
            &&& final(cursor).path@ == old(cursor).path@
        }),
{
    let ghost all = crate::text::texts(lines@);
    let ghost start = cursor.offset;
    let mut out: Vec<RateLimitSnapshot> = Vec::new();
    let mut offset: u64 = cursor.offset;
    let mut i: usize = 0;
    let mut stopped: bool = false;
    assert(all.skip(0) =~= all);
    while i < lines.len() && !stopped
        invariant
            i <= lines@.len(),
            all == crate::text::texts(lines@),
            readings.wf(),
            start + bytes_of(all, all.len()) <= u64::MAX,
            offset == start + bytes_of(all, i as nat),
            says_lines(out@, telling_lines(all, readings@, i as nat), readings@),
            lines_read(all) == i + lines_read(all.skip(i as int)),
            stopped ==> i < lines@.len() && unfinished(all[i as int]),
            *cursor == *old(cursor),
        decreases lines@.len() - i + if stopped {
            0int
        } else {
            1
        },
    {
        let ghost rest = all.skip(i as int);
        assert(rest[0] == lines@[i as int]@);
        assert(rest.skip(1) =~= all.skip(i + 1));
        proof {
            lemma_bytes_grow(all, (i + 1) as nat, all.len());
        }
        let line = lines[i].as_str();
        let t = trim(line, Edge::Space);
        if t.as_str().is_empty() {
            offset = offset + line.as_bytes().len() as u64;
            i += 1;
        } else {
            match read_json_text(t.as_str()) {
                Ok(doc) => {
                    match parse_rate_limits(&doc, readings) {
                        Some(snap) => {
                            let ghost before = telling_lines(all, readings@, i as nat);
                            out.push(snap);
                            assert(telling_lines(all, readings@, (i + 1) as nat) == before.push(
                                all[i as int],
                            ));
                        },
                        None => {},
                    }
                    offset = offset + line.as_bytes().len() as u64;
                    i += 1;
                },
                Err(_) => {
                    if finishes_with(line, "\n") {
                        offset = offset + line.as_bytes().len() as u64;
                        i += 1;
                    } else {
                        stopped = true;
                    }
                },
            }
        }
    }
    assert(lines_read(all) == i) by {
        if i < lines@.len() {
            assert(all.skip(i as int)[0] == all[i as int]);
        } else {
            assert(all.skip(i as int).len() == 0);
        }
    }
    cursor.offset = offset;
    out
}

proof fn lemma_bytes_grow(lines: Seq<Seq<char>>, n: nat, m: nat)
    requires
        n <= m <= lines.len(),
    ensures
        bytes_of(lines, n) <= bytes_of(lines, m),
    decreases m,
{
    if n < m {
        lemma_bytes_grow(lines, n, (m - 1) as nat);
    }
}

proof fn lemma_front_lines(
    a: Seq<Seq<char>>,
    b: Seq<Seq<char>>,
    readings: Map<Seq<char>, Reading>,
    n: nat,
)
    requires
        n <= a.len(),
    ensures
        bytes_of(a + b, n) == bytes_of(a, n),
        telling_lines(a + b, readings, n) == telling_lines(a, readings, n),
    decreases n,
{
    if n > 0 {
        lemma_front_lines(a, b, readings, (n - 1) as nat);
        assert((a + b)[n - 1] == a[n - 1]);
    }
}

/// Lines that are read in two goes, none of the first being left for later,
/// give what they give in one: no line is lost, and none is read twice.
pub proof fn reading_goes_on_where_it_stopped(
    a: Seq<Seq<char>>,
    b: Seq<Seq<char>>,
    readings: Map<Seq<char>, Reading>,
    n: nat,
)
    requires
        lines_read(a) == a.len(),
        n <= b.len(),
    ensures
        lines_read(a + b) == a.len() + lines_read(b),
        bytes_of(a + b, a.len() + n) == bytes_of(a, a.len()) + bytes_of(b, n),
        telling_lines(a + b, readings, a.len() + n) == telling_lines(a, readings, a.len())
            + telling_lines(b, readings, n),
    decreases a.len() + n,
{
    if n > 0 {
        reading_goes_on_where_it_stopped(a, b, readings, (n - 1) as nat);
        assert((a + b)[a.len() + n - 1] == b[n - 1]);
        let front = telling_lines(a, readings, a.len());
        let back = telling_lines(b, readings, (n - 1) as nat);
        assert((front + back).push(b[n - 1]) =~= front + back.push(b[n - 1]));
    } else {
        lemma_front_lines(a, b, readings, a.len());
        lemma_lines_read(a, b);
        let front = telling_lines(a, readings, a.len());
        assert(front + Seq::<Seq<char>>::empty() =~= front);
    }
}

proof fn lemma_lines_read(a: Seq<Seq<char>>, b: Seq<Seq<char>>)
    requires
        lines_read(a) == a.len(),
    ensures
        lines_read(a + b) == a.len() + lines_read(b),
    decreases a.len(),
{
    if a.len() == 0 {
        assert(a + b =~= b);
    } else {
        lemma_lines_bounded(a.skip(1));
        assert((a + b).skip(1) =~= a.skip(1) + b);
        assert((a + b)[0] == a[0]);
        lemma_lines_read(a.skip(1), b);
    }
}

proof fn lemma_lines_bounded(a: Seq<Seq<char>>)
    ensures
        lines_read(a) <= a.len(),
    decreases a.len(),
{
    if a.len() > 0 {
        lemma_lines_bounded(a.skip(1));
    }
}

/// A line whose end is missing is left for later: reading stops where it
/// starts, and gives what the lines before it give.
pub proof fn unfinished_line_is_left(
    a: Seq<Seq<char>>,
    line: Seq<char>,
    readings: Map<Seq<char>, Reading>,
)
    requires
        lines_read(a) == a.len(),
        unfinished(line),
    ensures
        ({
            let n = lines_read(a.push(line));
            &&& n == a.len()
            &&& bytes_of(a.push(line), n) == bytes_of(a, a.len())
            &&& telling_lines(a.push(line), readings, n) == telling_lines(a, readings, a.len())
        }),
{
    lemma_lines_read(a, seq![line]);
    lemma_front_lines(a, seq![line], readings, a.len());
    assert(a.push(line) =~= a + seq![line]);
}

// --------------------------------------------------------------- what is shown

/// What a window of so many minutes is called: by its usual lengths, each with
/// some slack, or else by its hours, rounded up.
pub open spec fn label_of(window_minutes: Option<i64>, default_label: Seq<char>) -> Seq<char> {
    match window_minutes {
        None => default_label,
        Some(m) => if m <= 310 {
            "5H 限额"@
        } else if m <= 1_500 {
            "24H 限额"@
        } else if m <= 10_140 {
            "周限额"@
        } else {
            crate::text::decimal((m + 59) / 60) + "H 限额"@
        },
    }
}

/// How long it is until a reset, in words.
pub open spec fn wait_of(reset_at: Option<i64>, now: int) -> Seq<char> {
    match reset_at {
        None => "未知"@,
        Some(t) => {
            let wait = t - now;
            let hours = (wait % 86_400) / 3_600;
            let minutes = (wait % 3_600) / 60;
            if wait < 60 {
                "即将重置"@
            } else if wait >= 86_400 {
                crate::text::decimal(wait / 86_400) + "天后重置"@
            } else if hours > 0 {
                crate::text::decimal(hours) + "小时"@ + crate::text::decimal(minutes)
                    + "分钟后重置"@
            } else {
                crate::text::decimal(minutes) + "分钟后重置"@
            }
        },
    }
}

/// Whether the minutes of a window can be rounded up to hours.
pub open spec fn label_fits(window_minutes: Option<i64>) -> bool {
    window_minutes is Some ==> window_minutes->Some_0 + 59 <= i64::MAX
}

/// Whether the seconds until a reset fit in 64 bits.
pub open spec fn wait_fits(reset_at: Option<i64>, now: int) -> bool {
    reset_at is Some ==> i64::MIN <= reset_at->Some_0 - now <= i64::MAX
}

/// What a window of so many minutes is called.
pub fn limits_label(window_minutes: Option<i64>, default_label: &str) -> (r: String)
    requires
        label_fits(window_minutes),
    ensures
        r@ == label_of(window_minutes, default_label@),
{
    match window_minutes {
        None => default_label.to_owned(),
        Some(m) => if m <= 310 {
            "5H 限额".to_owned()
        } else if m <= 1_500 {
            "24H 限额".to_owned()
        } else if m <= 10_140 {
            "周限额".to_owned()
        } else {
            let hours: i64 = (m + 59) / 60;
            joined(write_decimal(hours as i128).as_str(), "H 限额")
        },
    }
}

/// How long it is until a reset, in words, given the present second.
pub fn reset_text_at(reset_at: Option<i64>, now: i64) -> (r: String)
    requires
        wait_fits(reset_at, now as int),
    ensures
        r@ == wait_of(reset_at, now as int),
{
    let t: i64 = match reset_at {
        Some(t) => t,
        None => {
            return "未知".to_owned();
        },
    };
    let wait: i64 = t - now;
    if wait < 60 {
        return "即将重置".to_owned();
    }
    let days: i64 = wait / 86_400;
    let hours: i64 = (wait % 86_400) / 3_600;
    let minutes: i64 = (wait % 3_600) / 60;
    if days > 0 {
        joined(write_decimal(days as i128).as_str(), "天后重置")
    } else if hours > 0 {
        let front = joined3(
            write_decimal(hours as i128).as_str(),
            "小时",
            write_decimal(minutes as i128).as_str(),
        );
        joined(front.as_str(), "分钟后重置")
    } else {
        joined(write_decimal(minutes as i128).as_str(), "分钟后重置")
    }
}

/// How long it is until a reset, in words, as of now.
pub fn reset_text(reset_at: Option<i64>) -> (r: String)
    requires
        reset_at is Some ==> reset_at->Some_0 >= i64::MIN + LAST_SECOND,
    ensures
        exists|now: int| 0 <= now <= LAST_SECOND && r@ == #[trigger] wait_of(reset_at, now),
{
    let now = utc_now();
    reset_text_at(reset_at, now.secs)
}

/// Whether what a snapshot says stays within the bounds of its numbers.
pub open spec fn limits_fit(snap: Limits, now: int) -> bool {
    &&& label_fits(snap.primary.window_minutes)
    &&& label_fits(snap.secondary.window_minutes)
    &&& wait_fits(snap.primary.reset_at, now)
    &&& wait_fits(snap.secondary.reset_at, now)
}

/// What is shown of a window.
pub open spec fn shown(w: WindowSnapshot, default_label: Seq<char>, now: int) -> Window {
    Window {
        used: w.used as int,
        label: label_of(w.window_minutes, default_label),
        reset: wait_of(w.reset_at, now),
        reset_at: w.reset_at,
    }
}

/// What is shown of a snapshot.
pub open spec fn shown_limits(snap: Limits, plan_type: Seq<char>, now: int) -> Usage {
    Usage {
        plan_type,
        five_hour: shown(snap.primary, "5H 限额"@, now),
        five_hour_left: snap.primary.left as int,
        weekly: shown(snap.secondary, "周限额"@, now),
        weekly_left: snap.secondary.left as int,
        credits_balance: snap.credits_balance,
        has_credits: snap.has_credits,
        is_valid_for_cli: true,
    }
}

/// What is shown of a snapshot, given the present second.
pub fn snapshot_to_usage(snap: &RateLimitSnapshot, plan_type: &str, now: i64) -> (r: UsageDisplay)
    requires
        limits_fit(snap@, now as int),
    ensures
        r@ == shown_limits(snap@, plan_type@, now as int),
{
    UsageDisplay {
        plan_type: plan_type.to_owned(),
        five_hour_used: snap.primary.used,
        five_hour_left: snap.primary.left,
        five_hour_label: limits_label(snap.primary.window_minutes, "5H 限额"),
        five_hour_reset: reset_text_at(snap.primary.reset_at, now),
        five_hour_reset_at: snap.primary.reset_at,
        weekly_used: snap.secondary.used,
        weekly_left: snap.secondary.left,
        weekly_label: limits_label(snap.secondary.window_minutes, "周限额"),
        weekly_reset: reset_text_at(snap.secondary.reset_at, now),
        weekly_reset_at: snap.secondary.reset_at,
        credits_balance: copy_opt(&snap.credits_balance),
        has_credits: snap.has_credits,
        is_valid_for_cli: true,
    }
}

/// What is kept of the usage.
pub open spec fn kept(u: Usage, now: Timestamp) -> Quota {
    Quota {
        five_hour_left: u.five_hour_left,
        five_hour_reset: u.five_hour.reset,
        five_hour_reset_at: u.five_hour.reset_at,
        five_hour_label: u.five_hour.label,
        weekly_left: u.weekly_left,
        weekly_reset: u.weekly.reset,
        weekly_reset_at: u.weekly.reset_at,
        weekly_label: u.weekly.label,
        plan_type: u.plan_type,
        is_valid_for_cli: true,
        updated_at: now,
    }
}

/// What is kept of the usage, given the present time.
pub fn usage_to_cached(u: &UsageDisplay, now: Timestamp) -> (r: CachedQuota)
    ensures
        r@ == kept(u@, now),
{
    CachedQuota {
        five_hour_left: u.five_hour_left,
        five_hour_reset: u.five_hour_reset.clone(),
        five_hour_reset_at: u.five_hour_reset_at,
        five_hour_label: u.five_hour_label.clone(),
        weekly_left: u.weekly_left,
        weekly_reset: u.weekly_reset.clone(),
        weekly_reset_at: u.weekly_reset_at,
        weekly_label: u.weekly_label.clone(),
        plan_type: u.plan_type.clone(),
        is_valid_for_cli: true,
        updated_at: now,
    }
}

// ----------------------------------------------------------------- the account

/// Whether an id names a subscription.
pub open spec fn is_subscription(store: Holders, id: Seq<char>) -> bool {
    store.accounts.contains_key(id) && store.accounts[id].is_chatgpt_oauth
}

/// The account in use, where it is a subscription.
pub open spec fn current_subscription(store: Holders) -> Option<Seq<char>> {
    match store.current {
        Some(id) => if is_subscription(store, id) {
            Some(id)
        } else {
            None
        },
        None => None,
    }
}

/// The first of some ids that names a subscription.
pub open spec fn first_subscription(store: Holders, ids: Seq<Seq<char>>) -> Option<Seq<char>>
    decreases ids.len(),
{
    if ids.len() == 0 {
        None
    } else if is_subscription(store, ids[0]) {
        Some(ids[0])
    } else {
        first_subscription(store, ids.skip(1))
    }
}

/// The account that the quota belongs to. With the proxy on it is the one in
/// use; else, or where that is no subscription, it is one that Codex is logged
/// in with, and failing that the one in use. `logged_in` are the ids of the
/// accounts that Codex is logged in with.
pub open spec fn target(store: Holders, logged_in: Seq<Seq<char>>) -> Option<Seq<char>> {
    let current = current_subscription(store);
    if store.proxy_enabled && current is Some {
        current
    } else {
        crate::text::either(first_subscription(store, logged_in), current)
    }
}

fn subscription(store: &AccountStore, id: &str) -> (r: bool)
    requires
        store.wf(),
    ensures
        r == is_subscription(store@, id@),
{
    match store.accounts.get(id) {
        Some(a) => a.is_chatgpt_oauth,
        None => false,
    }
}

fn current_of(store: &AccountStore) -> (r: Option<String>)
    requires
        store.wf(),
    ensures
        crate::text::opt_text(r) == current_subscription(store@),
{
    match &store.current {
        Some(id) => if subscription(store, id.as_str()) {
            Some(id.clone())
        } else {
            None
        },
        None => None,
    }
}

/// The account that the quota belongs to, given the ids of the accounts that
/// Codex is logged in with.
pub fn resolve_target_account_id(store: &AccountStore, logged_in: &Vec<String>) -> (r: Option<
    String,
>)
    requires
        store.wf(),
    ensures
        crate::text::opt_text(r) == target(store@, crate::text::texts(logged_in@)),
{
    let current = current_of(store);
    if store.proxy_enabled && current.is_some() {
        return current;
    }
    let ghost all = crate::text::texts(logged_in@);
    assert(all.skip(0) =~= all);
    for i in 0..logged_in.len()
        invariant
            store.wf(),
            all == crate::text::texts(logged_in@),
            first_subscription(store@, all) == first_subscription(store@, all.skip(i as int)),
            !(store@.proxy_enabled && current_subscription(store@) is Some),
    {
        let ghost rest = all.skip(i as int);
        assert(rest[0] == logged_in@[i as int]@);
        assert(rest.skip(1) =~= all.skip(i + 1));
        if subscription(store, logged_in[i].as_str()) {
            return Some(logged_in[i].clone());
        }
    }
    current
}

/// News of an account's quota.
#[derive(Clone, Debug)]
pub struct CodexQuotaUpdate {
    pub account_id: String,
    pub account_name: String,
    pub usage: UsageDisplay,
    pub source_path: String,
    pub observed_at: Timestamp,
}

/// What a `CodexQuotaUpdate` says.
pub ghost struct News {
    pub account_id: Seq<char>,
    pub account_name: Seq<char>,
    pub usage: Usage,
    pub source_path: Seq<char>,
    pub observed_at: Timestamp,
}

impl View for CodexQuotaUpdate {
    type V = News;

    open spec fn view(&self) -> News {
        News {
            account_id: self.account_id@,
            account_name: self.account_name@,
            usage: self.usage@,
            source_path: self.source_path@,
            observed_at: self.observed_at,
        }
    }
}

/// Whether an account takes part: a subscription that is neither banned nor
/// logged out, and whose token is valid.
pub open spec fn takes_part(a: Holder) -> bool {
    a.is_chatgpt_oauth && !a.is_banned && !a.is_token_invalid && !a.is_logged_out
}

/// Whether a snapshot belongs to an account that takes part.
pub open spec fn awaited(store: Holders, logged_in: Seq<Seq<char>>) -> bool {
    match target(store, logged_in) {
        Some(id) => store.accounts.contains_key(id) && takes_part(store.accounts[id]),
        None => false,
    }
}

/// Whether a snapshot belongs to an account that takes part, given the ids of
/// the accounts that Codex is logged in with.
pub fn awaits_snapshot(store: &AccountStore, logged_in: &Vec<String>) -> (r: bool)
    requires
        store.wf(),
    ensures
        r == awaited(store@, crate::text::texts(logged_in@)),
{
    match resolve_target_account_id(store, logged_in) {
        Some(id) => match store.accounts.get(id.as_str()) {
            Some(a) => a.is_chatgpt_oauth && !a.is_banned && !a.is_token_invalid
                && !a.is_logged_out,
            None => false,
        },
        None => false,
    }
}

/// The plan: as the snapshot says, or as it was known, or unknown.
pub open spec fn plan_of(snap: Limits, a: Holder) -> Seq<char> {
    match snap.plan_type {
        Some(p) => p,
        None => match a.cached_quota {
            Some(q) => q.plan_type,
            None => "unknown"@,
        },
    }
}

/// Whether a quota differs from what was known in what is left, in its resets,
/// or in the plan.
pub open spec fn differs(known: Option<Quota>, q: Quota) -> bool {
    match known {
        None => true,
        Some(k) => k.five_hour_left != q.five_hour_left || k.weekly_left != q.weekly_left
            || k.five_hour_reset_at != q.five_hour_reset_at || k.weekly_reset_at
            != q.weekly_reset_at || k.plan_type != q.plan_type,
    }
}

/// The quota that a snapshot gives an account.
pub open spec fn quota_given(snap: Limits, a: Holder, now: Timestamp) -> Quota {
    kept(shown_limits(snap, plan_of(snap, a), now.secs as int), now)
}

/// The account that a snapshot changes, if it changes one.
pub open spec fn changed_account(
    store: Holders,
    logged_in: Seq<Seq<char>>,
    snap: Limits,
    now: Timestamp,
) -> Option<Seq<char>> {
    match target(store, logged_in) {
        Some(id) => if store.accounts.contains_key(id) && takes_part(store.accounts[id]) && differs(
            store.accounts[id].cached_quota,
            quota_given(snap, store.accounts[id], now),
        ) {
            Some(id)
        } else {
            None
        },
        None => None,
    }
}

/// The accounts once a snapshot has been applied.
pub open spec fn applied(
    store: Holders,
    logged_in: Seq<Seq<char>>,
    snap: Limits,
    now: Timestamp,
) -> Holders {
    match changed_account(store, logged_in, snap, now) {
        Some(id) => Holders {
            accounts: store.accounts.insert(
                id,
                Holder {
                    cached_quota: Some(quota_given(snap, store.accounts[id], now)),
                    ..store.accounts[id]
                },
            ),
            ..store
        },
        None => store,
    }
}

/// The news that comes of a snapshot.
pub open spec fn news(
    store: Holders,
    logged_in: Seq<Seq<char>>,
    snap: Limits,
    source_path: Seq<char>,
    now: Timestamp,
) -> Option<News> {
    match changed_account(store, logged_in, snap, now) {
        Some(id) => Some(
            News {
                account_id: id,
                account_name: store.accounts[id].name,
                usage: shown_limits(snap, plan_of(snap, store.accounts[id]), now.secs as int),
                source_path,
                observed_at: now,
            },
        ),
        None => None,
    }
}

proof fn lemma_same_target(before: Holders, after: Holders, ids: Seq<Seq<char>>)
    requires
        forall|id: Seq<char>|
            is_subscription(before, id) == #[trigger] is_subscription(after, id),
    ensures
        first_subscription(before, ids) == first_subscription(after, ids),
    decreases ids.len(),
{
    if ids.len() > 0 {
        lemma_same_target(before, after, ids.skip(1));
    }
}

/// A snapshot that has been applied changes nothing when it is seen again, and
/// is no news.
pub proof fn snapshot_counts_once(
    store: Holders,
    logged_in: Seq<Seq<char>>,
    snap: Limits,
    source_path: Seq<char>,
    now: Timestamp,
    later: Timestamp,
)
    ensures
        ({
            let after = applied(store, logged_in, snap, now);
            changed_account(store, logged_in, snap, now) is Some ==> applied(
                after,
                logged_in,
                snap,
                later,
            ) == after && news(after, logged_in, snap, source_path, later) is None
        }),
{
    let after = applied(store, logged_in, snap, now);
    if let Some(id) = changed_account(store, logged_in, snap, now) {
        assert forall|k: Seq<char>| is_subscription(store, k) == #[trigger] is_subscription(
            after,
            k,
        ) by {}
        lemma_same_target(store, after, logged_in);
        assert(target(after, logged_in) == Some(id));
    }
}

/// A snapshot touches the quota of one account at most, and nothing else.
pub proof fn snapshot_touches_one_quota(
    store: Holders,
    logged_in: Seq<Seq<char>>,
    snap: Limits,
    now: Timestamp,
    id: Seq<char>,
)
    requires
        store.accounts.contains_key(id),
    ensures
        ({
            let after = applied(store, logged_in, snap, now);
            &&& after.accounts.dom() == store.accounts.dom()
            &&& after.current == store.current && after.proxy_enabled == store.proxy_enabled
            &&& target(store, logged_in) != Some(id) ==> after.accounts[id] == store.accounts[id]
            &&& after.accounts[id] == (Holder {
                cached_quota: after.accounts[id].cached_quota,
                ..store.accounts[id]
            })
        }),
{
    let after = applied(store, logged_in, snap, now);
    assert(after.accounts.dom() =~= store.accounts.dom());
}

fn quota_differs(known: &Option<CachedQuota>, q: &CachedQuota) -> (r: bool)
    ensures
        r == differs(
            match *known {
                Some(k) => Some(k@),
                None => None,
            },
            q@,
        ),
{
    match known {
        None => true,
        Some(k) => k.five_hour_left != q.five_hour_left || k.weekly_left != q.weekly_left
            || k.five_hour_reset_at != q.five_hour_reset_at || k.weekly_reset_at
            != q.weekly_reset_at || !same_text(k.plan_type.as_str(), q.plan_type.as_str()),
    }
}

/// Applies a snapshot to the account that it belongs to, given the ids of the
/// accounts that Codex is logged in with and the present time. There is news
/// only where the quota differs from what was known.
pub fn apply_snapshot_at(
    store: &mut AccountStore,
    snap: &RateLimitSnapshot,
    source_path: &str,
    logged_in: &Vec<String>,
    now: Timestamp,
) -> (r: Option<CodexQuotaUpdate>)
    requires
        old(store).wf(),
        awaited(old(store)@, crate::text::texts(logged_in@)) ==> limits_fit(
            snap@,
            now.secs as int,
        ),
    ensures
        final(store).wf(),
        final(store)@ == applied(old(store)@, crate::text::texts(logged_in@), snap@, now),
        match r {
            Some(n) => news(
                old(store)@,
                crate::text::texts(logged_in@),
                snap@,
                source_path@,
                now,
            ) == Some(n@),
            None => news(
                old(store)@,
                crate::text::texts(logged_in@),
                snap@,
                source_path@,
                now,
            ) is None,
        },
{
    let ghost before = store@;
    let account_id = match resolve_target_account_id(store, logged_in) {
        Some(id) => id,
        None => {
            return None;
        },
    };
    match store.accounts.get_mut(account_id.as_str()) {
        Some(account) => {
            let ghost holder = account@;
            if !account.is_chatgpt_oauth || account.is_banned || account.is_token_invalid
                || account.is_logged_out {
                assert(crate::account::holders(old(store).accounts@.insert(account_id@, *account))
                    =~= before.accounts);
                return None;
            }
            let known = match &account.cached_quota {
                Some(q) => Some(q.plan_type.clone()),
                None => None,
            };
            let plan_type = match or_text(copy_opt(&snap.plan_type), known) {
                Some(p) => p,
                None => "unknown".to_owned(),
            };
            let usage = snapshot_to_usage(snap, plan_type.as_str(), now.secs);
            let next = usage_to_cached(&usage, now);
            if !quota_differs(&account.cached_quota, &next) {
                assert(crate::account::holders(old(store).accounts@.insert(account_id@, *account))
                    =~= before.accounts);
                return None;
            }
            account.cached_quota = Some(next);
            account.is_token_invalid = false;
            account.is_logged_out = false;
            let account_name = account.name.clone();
            assert(crate::account::holders(old(store).accounts@.insert(account_id@, *account))
                =~= before.accounts.insert(account_id@, account@));
            Some(
                CodexQuotaUpdate {
                    account_id,
                    account_name,
                    usage,
                    source_path: source_path.to_owned(),
                    observed_at: now,
                },
            )
        },
        None => None,
    }
}

/// Whether what a snapshot says stays within the bounds of its numbers, at any
/// time.
pub open spec fn limits_always_fit(snap: Limits) -> bool {
    &&& label_fits(snap.primary.window_minutes)
    &&& label_fits(snap.secondary.window_minutes)
    &&& snap.primary.reset_at is Some ==> snap.primary.reset_at->Some_0 >= i64::MIN + LAST_SECOND
    &&& snap.secondary.reset_at is Some ==> snap.secondary.reset_at->Some_0 >= i64::MIN
        + LAST_SECOND
}

fn window_in_bounds(w: &WindowSnapshot) -> (r: bool)
    ensures
        r == (label_fits(w.window_minutes) && (w.reset_at is Some ==> w.reset_at->Some_0 >= i64::MIN
            + LAST_SECOND)),
{
    let long = match w.window_minutes {
        Some(m) => m > i64::MAX - 59,
        None => false,
    };
    let early = match w.reset_at {
        Some(t) => t < i64::MIN + LAST_SECOND,
        None => false,
    };
    !long && !early
}

/// Whether what a snapshot says stays within the bounds of its numbers, at any
/// time.
pub fn snapshot_in_bounds(snap: &RateLimitSnapshot) -> (r: bool)
    ensures
        r == limits_always_fit(snap@),
{
    window_in_bounds(&snap.primary) && window_in_bounds(&snap.secondary)
}

/// Applies a snapshot to the account that it belongs to, as of now.
pub fn apply_snapshot(
    store: &mut AccountStore,
    snap: &RateLimitSnapshot,
    source_path: &str,
    logged_in: &Vec<String>,
) -> (r: Option<CodexQuotaUpdate>)
    requires
        old(store).wf(),
        awaited(old(store)@, crate::text::texts(logged_in@)) ==> limits_always_fit(snap@),
    ensures
        final(store).wf(),
        exists|now: Timestamp|
            now.valid() && final(store)@ == #[trigger] applied(
                old(store)@,
                crate::text::texts(logged_in@),
                snap@,
                now,
            ) && match r {
                Some(n) => news(
                    old(store)@,
                    crate::text::texts(logged_in@),
                    snap@,
                    source_path@,
                    now,
                ) == Some(n@),
                None => news(
                    old(store)@,
                    crate::text::texts(logged_in@),
                    snap@,
                    source_path@,
                    now,
                ) is None,
            },
{
    let now = utc_now();
    apply_snapshot_at(store, snap, source_path, logged_in, now)
}

// ------------------------------------------------------------------------- laws

/// With the proxy on, the quota belongs to the account in use, where that is a
/// subscription.
pub proof fn proxy_serves_the_account_in_use(
    store: Holders,
    logged_in: Seq<Seq<char>>,
    id: Seq<char>,
)
    requires
        store.proxy_enabled,
        store.current == Some(id),
        store.accounts.contains_key(id),
        store.accounts[id].is_chatgpt_oauth,
    ensures
        target(store, logged_in) == Some(id),
{
}

/// With the proxy off, or with no subscription in use, the quota belongs to the
/// first subscription that Codex is logged in with.
pub proof fn codex_serves_who_is_logged_in(
    store: Holders,
    logged_in: Seq<Seq<char>>,
    k: int,
)
    requires
        !store.proxy_enabled || store.current is None || !store.accounts.contains_key(
            store.current->Some_0,
        ) || !store.accounts[store.current->Some_0].is_chatgpt_oauth,
        0 <= k < logged_in.len(),
        store.accounts.contains_key(logged_in[k]) && store.accounts[logged_in[k]].is_chatgpt_oauth,
        forall|j: int|
            0 <= j < k ==> !store.accounts.contains_key(#[trigger] logged_in[j])
                || !store.accounts[logged_in[j]].is_chatgpt_oauth,
    ensures
        target(store, logged_in) == Some(logged_in[k]),
{
    lemma_first_subscription(store, logged_in, k);
}

/// Where Codex is logged in with no subscription, the quota belongs to the
/// account in use if that is one, and else to nobody.
pub proof fn account_in_use_stands_in(store: Holders, logged_in: Seq<Seq<char>>)
    requires
        forall|j: int|
            0 <= j < logged_in.len() ==> !store.accounts.contains_key(#[trigger] logged_in[j])
                || !store.accounts[logged_in[j]].is_chatgpt_oauth,
    ensures
        match store.current {
            Some(id) => store.accounts.contains_key(id) && store.accounts[id].is_chatgpt_oauth
                ==> target(store, logged_in) == Some(id),
            None => target(store, logged_in) is None,
        },
        target(store, logged_in) is Some ==> target(store, logged_in) == store.current
            && store.accounts.contains_key(store.current->Some_0)
            && store.accounts[store.current->Some_0].is_chatgpt_oauth,
{
    lemma_first_subscription(store, logged_in, -1);
}

proof fn lemma_first_subscription(store: Holders, ids: Seq<Seq<char>>, k: int)
    ensures
        0 <= k < ids.len() && is_subscription(store, ids[k]) && (forall|j: int|
            0 <= j < k ==> !is_subscription(store, #[trigger] ids[j])) ==> first_subscription(
            store,
            ids,
        ) == Some(ids[k]),
        (forall|j: int| 0 <= j < ids.len() ==> !is_subscription(store, #[trigger] ids[j]))
            ==> first_subscription(store, ids) is None,
    decreases ids.len(),
{
    if ids.len() > 0 && !is_subscription(store, ids[0]) {
        let rest = ids.skip(1);
        lemma_first_subscription(store, rest, k - 1);
        assert(forall|j: int| 0 <= j < rest.len() ==> #[trigger] rest[j] == ids[j + 1]);
    }
}

/// Once a snapshot has been applied to an account that takes part, the quota of
/// the account is what the snapshot says is left of each window and when each is
/// reset, and there is news just where one of these or the plan was otherwise
/// before. A plan that the snapshot does not name stays as it was known.
pub proof fn quota_becomes_what_the_snapshot_says(
    store: Holders,
    logged_in: Seq<Seq<char>>,
    snap: Limits,
    source_path: Seq<char>,
    now: Timestamp,
    id: Seq<char>,
)
    requires
        target(store, logged_in) == Some(id),
        store.accounts.contains_key(id),
        store.accounts[id].is_chatgpt_oauth,
        !store.accounts[id].is_banned,
        !store.accounts[id].is_token_invalid,
        !store.accounts[id].is_logged_out,
    ensures
        ({
            let known = store.accounts[id].cached_quota;
            let after = applied(store, logged_in, snap, now).accounts[id].cached_quota;
            let said = news(store, logged_in, snap, source_path, now);
            &&& after is Some
            &&& after->Some_0.five_hour_left == snap.primary.left
            &&& after->Some_0.weekly_left == snap.secondary.left
            &&& after->Some_0.five_hour_reset_at == snap.primary.reset_at
            &&& after->Some_0.weekly_reset_at == snap.secondary.reset_at
            &&& snap.plan_type is Some ==> after->Some_0.plan_type == snap.plan_type->Some_0
            &&& snap.plan_type is None && known is Some ==> after->Some_0.plan_type
                == known->Some_0.plan_type
            &&& snap.plan_type is None && known is None ==> after->Some_0.plan_type == "unknown"@
            &&& said is None <==> {
                &&& known is Some
                &&& known->Some_0.five_hour_left == snap.primary.left
                &&& known->Some_0.weekly_left == snap.secondary.left
                &&& known->Some_0.five_hour_reset_at == snap.primary.reset_at
                &&& known->Some_0.weekly_reset_at == snap.secondary.reset_at
                &&& snap.plan_type is Some ==> known->Some_0.plan_type == snap.plan_type->Some_0
            }
            &&& said is None ==> after == known
            &&& said is Some ==> after->Some_0.updated_at == now
                && after->Some_0.is_valid_for_cli
        }),
{
}

/// News of a quota names the account and the file, and shows what the snapshot
/// says: what is used and left of each window, what the window is called and how
/// long it is until its reset, and the credits. What is kept agrees with it.
pub proof fn news_shows_the_snapshot(
    store: Holders,
    logged_in: Seq<Seq<char>>,
    snap: Limits,
    source_path: Seq<char>,
    now: Timestamp,
)
    requires
        news(store, logged_in, snap, source_path, now) is Some,
    ensures
        ({
            let n = news(store, logged_in, snap, source_path, now)->Some_0;
            let after = applied(store, logged_in, snap, now);
            let kept = after.accounts[n.account_id].cached_quota;
            let shown = n.usage;
            &&& target(store, logged_in) == Some(n.account_id)
            &&& store.accounts.contains_key(n.account_id)
            &&& n.account_name == store.accounts[n.account_id].name
            &&& n.source_path == source_path
            &&& n.observed_at == now
            &&& shown.five_hour.used == snap.primary.used
            &&& shown.five_hour_left == snap.primary.left
            &&& shown.five_hour.reset_at == snap.primary.reset_at
            &&& shown.five_hour.label == label_of(snap.primary.window_minutes, "5H 限额"@)
            &&& shown.five_hour.reset == wait_of(snap.primary.reset_at, now.secs as int)
            &&& shown.weekly.used == snap.secondary.used
            &&& shown.weekly_left == snap.secondary.left
            &&& shown.weekly.reset_at == snap.secondary.reset_at
            &&& shown.weekly.label == label_of(snap.secondary.window_minutes, "周限额"@)
            &&& shown.weekly.reset == wait_of(snap.secondary.reset_at, now.secs as int)
            &&& shown.has_credits == snap.has_credits
            &&& shown.credits_balance == snap.credits_balance
            &&& shown.is_valid_for_cli
            &&& kept is Some
            &&& kept->Some_0.plan_type == shown.plan_type
            &&& kept->Some_0.five_hour_left == shown.five_hour_left
            &&& kept->Some_0.five_hour_label == shown.five_hour.label
            &&& kept->Some_0.five_hour_reset == shown.five_hour.reset
            &&& kept->Some_0.weekly_left == shown.weekly_left
            &&& kept->Some_0.weekly_label == shown.weekly.label
            &&& kept->Some_0.weekly_reset == shown.weekly.reset
        }),
{
}

/// A snapshot that belongs to nobody, or to an account that is banned, logged
/// out, or whose token is invalid, changes nothing and is no news.
pub proof fn snapshot_for_nobody_is_passed_over(
    store: Holders,
    logged_in: Seq<Seq<char>>,
    snap: Limits,
    source_path: Seq<char>,
    now: Timestamp,
)
    requires
        match target(store, logged_in) {
            None => true,
            Some(id) => store.accounts[id].is_banned || store.accounts[id].is_token_invalid
                || store.accounts[id].is_logged_out,
        },
    ensures
        applied(store, logged_in, snap, now) == store,
        news(store, logged_in, snap, source_path, now) is None,
        !awaited(store, logged_in),
{
}

/// A snapshot is awaited just by an account that a quota belongs to and that is
/// a subscription, neither banned nor logged out, with a valid token.
pub proof fn snapshot_is_awaited_by_who_takes_part(
    store: Holders,
    logged_in: Seq<Seq<char>>,
    id: Seq<char>,
)
    requires
        target(store, logged_in) == Some(id),
        store.accounts.contains_key(id),
    ensures
        awaited(store, logged_in) <==> (store.accounts[id].is_chatgpt_oauth
            && !store.accounts[id].is_banned && !store.accounts[id].is_token_invalid
            && !store.accounts[id].is_logged_out),
{
}

/// What a snapshot says of a window is what its part of the line says: what is
/// used and left, held between 0 and 100, when it is reset, and how long it is.
pub proof fn window_is_what_the_line_says(
    w: WindowSnapshot,
    doc: JsonTree,
    readings: Map<Seq<char>, Reading>,
    n: i64,
    text: Seq<char>,
)
    requires
        says_window(w, doc, readings),
    ensures
        ({
            let used = crate::figures::reading(doc.get("used_percent"@), readings);
            &&& used is Some && used->Some_0.finite
            &&& 0 <= w.used <= 100 && 0 <= w.left <= 100
            &&& 0 <= used->Some_0.ceiling <= 100 ==> w.used == used->Some_0.ceiling
            &&& used->Some_0.ceiling < 0 ==> w.used == 0
            &&& used->Some_0.ceiling > 100 ==> w.used == 100
            &&& 0 <= used->Some_0.left_of_hundred <= 100 ==> w.left == used->Some_0.left_of_hundred
            &&& used->Some_0.left_of_hundred < 0 ==> w.left == 0
            &&& used->Some_0.left_of_hundred > 100 ==> w.left == 100
        }),
        doc.get("resets_at"@) == Some(JsonTree::Int(n as int)) || doc.get("resets_at"@) == Some(
            JsonTree::Text(crate::text::decimal(n as int)),
        ) ==> w.reset_at == Some(n),
        doc.get("resets_at"@) is None ==> w.reset_at is None,
        doc.get("resets_at"@) == Some(JsonTree::Decimal(text)) && readings.contains_key(text)
            ==> w.reset_at == Some(readings[text].whole),
        doc.get("window_minutes"@) == Some(JsonTree::Int(n as int)) || doc.get("window_minutes"@)
            == Some(JsonTree::Text(crate::text::decimal(n as int))) ==> w.window_minutes == Some(n),
        doc.get("window_minutes"@) is None ==> w.window_minutes is None,
        doc.get("window_minutes"@) == Some(JsonTree::Decimal(text)) && readings.contains_key(text)
            ==> w.window_minutes == Some(readings[text].whole),
{
    crate::figures::written_numbers_are_read_back(n as int);
}

/// What a snapshot says is what the line says under `rate_limits`, which is
/// looked for in its payload first: both windows, the plan without the blanks
/// around it, the balance, and credits where there are some or no limit to them.
pub proof fn snapshot_is_what_the_line_says(
    snap: Limits,
    doc: JsonTree,
    limits: JsonTree,
    credits: JsonTree,
    plan: Seq<char>,
    readings: Map<Seq<char>, Reading>,
)
    requires
        says_limits(snap, doc, readings),
        ({
            let inner = match doc.get("payload"@) {
                Some(p) => p.get("rate_limits"@),
                None => None,
            };
            inner == Some(limits) || (inner is None && doc.get("rate_limits"@) == Some(limits))
        }),
    ensures
        limits.get("primary"@) is Some && says_window(
            snap.primary,
            limits.get("primary"@)->Some_0,
            readings,
        ),
        limits.get("secondary"@) is Some && says_window(
            snap.secondary,
            limits.get("secondary"@)->Some_0,
            readings,
        ),
        limits.get("plan_type"@) == Some(JsonTree::Text(plan)) && crate::text::trimmed(
            plan,
            Edge::Space,
        ).len() > 0 ==> snap.plan_type == Some(crate::text::trimmed(plan, Edge::Space)),
        limits.get("plan_type"@) == Some(JsonTree::Text(plan)) && crate::text::trimmed(
            plan,
            Edge::Space,
        ).len() == 0 ==> snap.plan_type is None,
        limits.get("plan_type"@) is None ==> snap.plan_type is None,
        limits.get("credits"@) == Some(credits) ==> (snap.has_credits <==> credits.get(
            "has_credits"@,
        ) == Some(JsonTree::Bool(true)) || credits.get("unlimited"@) == Some(JsonTree::Bool(true)))
            && snap.credits_balance == crate::figures::read_figure(
            credits.get("balance"@),
            readings,
        ),
        limits.get("credits"@) is None ==> !snap.has_credits && snap.credits_balance is None,
{
}

/// A line says something of the quota just where it says how much of each of
/// the two windows is used, as a finite number.
pub proof fn line_has_to_tell_of_both_windows(
    doc: JsonTree,
    limits: JsonTree,
    readings: Map<Seq<char>, Reading>,
)
    requires
        ({
            let inner = match doc.get("payload"@) {
                Some(p) => p.get("rate_limits"@),
                None => None,
            };
            inner == Some(limits) || (inner is None && doc.get("rate_limits"@) == Some(limits))
        }),
    ensures
        tells_limits(doc, readings) <==> {
            let first = limits.get_in("primary"@, "used_percent"@);
            let second = limits.get_in("secondary"@, "used_percent"@);
            let a = crate::figures::reading(first, readings);
            let b = crate::figures::reading(second, readings);
            a is Some && a->Some_0.finite && b is Some && b->Some_0.finite
        },
{
}

/// A line without `rate_limits` says nothing of the quota.
pub proof fn line_without_limits_tells_nothing(doc: JsonTree, readings: Map<Seq<char>, Reading>)
    requires
        doc.get("rate_limits"@) is None,
        doc.get("payload"@) is None || doc.get("payload"@)->Some_0.get("rate_limits"@) is None,
    ensures
        !tells_limits(doc, readings),
{
}

/// Of the lines that are read, just those count that hold a document that says
/// something of the quota, each once and in their order.
pub proof fn every_line_that_tells_counts(
    lines: Seq<Seq<char>>,
    readings: Map<Seq<char>, Reading>,
    n: nat,
)
    requires
        n <= lines.len(),
    ensures
        telling_lines(lines, readings, n) == lines.take(n as int).filter(
            |line: Seq<char>|
                {
                    let t = crate::text::trimmed(line, Edge::Space);
                    let doc = crate::json::json_of_text(t);
                    t.len() > 0 && doc is Ok && tells_limits(doc->Ok_0, readings)
                },
        ),
    decreases n,
{
    let tells = |line: Seq<char>|
        {
            let t = crate::text::trimmed(line, Edge::Space);
            let doc = crate::json::json_of_text(t);
            t.len() > 0 && doc is Ok && tells_limits(doc->Ok_0, readings)
        };
    reveal(Seq::filter);
    if n > 0 {
        every_line_that_tells_counts(lines, readings, (n - 1) as nat);
        assert(lines.take(n as int).drop_last() =~= lines.take(n - 1));
        assert(lines.take(n as int).last() == lines[n - 1]);
        assert(tells(lines[n - 1]) == line_tells(lines[n - 1], readings));
    }
}

/// All lines are read that are blank, that hold a document, or whose end is
/// there; reading stops at the first that is none of these.
pub proof fn lines_are_read_up_to_one_being_written(lines: Seq<Seq<char>>, n: int)
    requires
        0 <= n <= lines.len(),
        forall|i: int|
            0 <= i < n ==> {
                let line = #[trigger] lines[i];
                let t = crate::text::trimmed(line, Edge::Space);
                t.len() == 0 || crate::json::json_of_text(t) is Ok || (line.len() > 0 && line.last()
                    == '\n')
            },
        n < lines.len() ==> {
            let t = crate::text::trimmed(lines[n], Edge::Space);
            t.len() > 0 && crate::json::json_of_text(t) is Err && lines[n].last() != '\n'
        },
    ensures
        lines_read(lines) == n,
    decreases lines.len(),
{
    reveal_strlit("\n");
    if lines.len() > 0 {
        let line = lines[0];
        if line.len() > 0 {
            assert(line.subrange(line.len() - 1, line.len() as int) =~= seq![line.last()]);
            assert(crate::text::ends_with(line, "\n"@) <==> line.last() == '\n') by {
                assert("\n"@ =~= seq!['\n']);
                if crate::text::ends_with(line, "\n"@) {
                    assert(line.subrange(line.len() - 1, line.len() as int)[0] == '\n');
                }
            }
        } else {
            assert(crate::text::trimmed(line, Edge::Space) =~= line);
        }
        if n > 0 {
            let rest = lines.skip(1);
            assert(forall|i: int| 0 <= i < rest.len() ==> #[trigger] rest[i] == lines[i + 1]);
            lines_are_read_up_to_one_being_written(rest, n - 1);
        }
    }
}

/// Reading goes on behind the bytes of the lines that were read.
pub proof fn reading_goes_on_behind_what_was_read(lines: Seq<Seq<char>>, n: nat)
    requires
        n < lines.len(),
    ensures
        bytes_of(lines, 0) == 0,
        bytes_of(lines, n + 1) == bytes_of(lines, n) + encode_utf8(lines[n as int]).len(),
{
}

/// A window is called by its length: by five hours, a day or a week, each with
/// some slack, or else by its hours, a part of an hour counting as one.
pub proof fn windows_are_called_by_their_length(m: i64, hours: int, default_label: Seq<char>)
    ensures
        label_of(None, default_label) == default_label,
        m <= 310 ==> label_of(Some(m), default_label) == "5H 限额"@,
        310 < m <= 1_500 ==> label_of(Some(m), default_label) == "24H 限额"@,
        1_500 < m <= 10_140 ==> label_of(Some(m), default_label) == "周限额"@,
        10_140 < m && 60 * (hours - 1) < m <= 60 * hours ==> label_of(Some(m), default_label)
            == crate::text::decimal(hours) + "H 限额"@,
{
}

/// The wait until a reset is told in days where there is a whole one, else in
/// hours and minutes, else in minutes; one of less than a minute is as good as
/// over, and one that nobody knows is unknown.
pub proof fn waits_are_told_in_days_hours_and_minutes(
    reset_at: i64,
    now: int,
    days: int,
    hours: int,
    minutes: int,
    seconds: int,
)
    requires
        reset_at - now == 86_400 * days + 3_600 * hours + 60 * minutes + seconds,
        0 <= hours < 24,
        0 <= minutes < 60,
        0 <= seconds < 60,
    ensures
        wait_of(None, now) == "未知"@,
        days < 0 || (days == 0 && hours == 0 && minutes == 0) ==> wait_of(Some(reset_at), now)
            == "即将重置"@,
        days > 0 ==> wait_of(Some(reset_at), now) == crate::text::decimal(days) + "天后重置"@,
        days == 0 && hours > 0 ==> wait_of(Some(reset_at), now) == crate::text::decimal(hours)
            + "小时"@ + crate::text::decimal(minutes) + "分钟后重置"@,
        days == 0 && hours == 0 && minutes > 0 ==> wait_of(Some(reset_at), now)
            == crate::text::decimal(minutes) + "分钟后重置"@,
{
    let wait = reset_at - now;
    if days >= 0 {
        assert(wait / 86_400 == days);
        assert(wait % 86_400 == 3_600 * hours + 60 * minutes + seconds);
        assert(wait % 3_600 == 60 * minutes + seconds);
    }
}

/// A cursor tells the file and how far it has been read.
pub proof fn cursor_tells_how_far_a_file_was_read(c: RolloutCursor)
    ensures
        cursor_of(Some(c)) == Some((c.path@, c.offset)),
        cursor_of(None) is None,
{
}

/// What a snapshot says, and what its news say, is told field by field.
pub proof fn snapshots_are_told_field_by_field(s: RateLimitSnapshot, n: CodexQuotaUpdate)
    ensures
        s@.primary == s.primary && s@.secondary == s.secondary,
        s.plan_type is Some ==> s@.plan_type == Some(s.plan_type->Some_0@),
        s.plan_type is None ==> s@.plan_type is None,
        s@.has_credits == s.has_credits,
        s.credits_balance is Some ==> s@.credits_balance == Some(s.credits_balance->Some_0@),
        s.credits_balance is None ==> s@.credits_balance is None,
        n@.account_id == n.account_id@ && n@.account_name == n.account_name@,
        n@.usage == n.usage@ && n@.source_path == n.source_path@,
        n@.observed_at == n.observed_at,
{
}

/// A snapshot stays within the bounds of its numbers unless a window is almost
/// as long as can be counted, or a reset lies almost as far back.
pub proof fn snapshot_is_in_bounds_unless_it_is_extreme(snap: Limits, now: int)
    ensures
        ({
            let sane = |w: WindowSnapshot|
                (w.window_minutes is None || w.window_minutes->Some_0 <= 9_223_372_036_854_775_807
                    - 59) && (w.reset_at is None || w.reset_at->Some_0 >= -9_223_372_036_854_775_808
                    + 8_210_266_876_799);
            &&& limits_always_fit(snap) <==> sane(snap.primary) && sane(snap.secondary)
            &&& limits_always_fit(snap) && 0 <= now <= 8_210_266_876_799 ==> limits_fit(snap, now)
        }),
{
}

/// The snapshots that come of lines are as many as the lines, and each is what
/// the document on its line says.
pub proof fn each_line_gives_its_snapshot(
    snaps: Seq<RateLimitSnapshot>,
    lines: Seq<Seq<char>>,
    readings: Map<Seq<char>, Reading>,
    i: int,
    doc: JsonTree,
)
    requires
        says_lines(snaps, lines, readings),
    ensures
        snaps.len() == lines.len(),
        0 <= i < lines.len() && crate::json::json_of_text(
            crate::text::trimmed(lines[i], Edge::Space),
        ) == Ok::<JsonTree, Seq<char>>(doc) ==> says_limits(snaps[i]@, doc, readings),
{
}

} // verus!
