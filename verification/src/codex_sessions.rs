//! The sessions that Codex keeps on disk, one file of JSON lines each.
//!
//! The first line of a file says which session it is. Of the lines behind it,
//! the next few are looked through for the first thing the user wrote and for
//! the model.
use crate::clock::{parse_rfc3339, utc_now, Timestamp, FIRST_SECOND};
use crate::json::{read_json_text, Json, JsonTree};
use crate::text::{
    chars_of, copy_opt, finishes_with, has_text, same_text, starts_with, take_head, to_lowercase,
    trim, Edge,
};
use vstd::prelude::*;

verus! {

// --------------------------------------------------------- what the user wrote

/// The most characters that are kept of what the user wrote.
pub const USER_TEXT_MAX: usize = 200;

/// A character on a single line: line breaks and tabs become spaces.
pub open spec fn on_one_line(c: char) -> char {
    if c == '\n' || c == '\r' || c == '\t' {
        ' '
    } else {
        c
    }
}

/// A text on a single line, with one space in the place of several.
pub open spec fn squeezed(s: Seq<char>) -> Seq<char>
    decreases s.len(),
{
    if s.len() == 0 {
        s
    } else {
        let before = squeezed(s.drop_last());
        let c = on_one_line(s.last());
        if c == ' ' && before.len() > 0 && before.last() == ' ' {
            before
        } else {
            before.push(c)
        }
    }
}

/// What is shown of a text that the user wrote.
pub open spec fn cleaned(s: Seq<char>) -> Seq<char> {
    crate::text::head(crate::text::trimmed(squeezed(s), Edge::Space), USER_TEXT_MAX as int)
}

/// Puts a text on a single line of limited length.
pub fn clean_user_text(s: &str) -> (r: String)
    ensures
        r@ == cleaned(s@),
{
    let chars = chars_of(s);
    let mut out = String::new();
    let mut after_space: bool = false;
    assert(s@.take(0) =~= Seq::<char>::empty());
    for i in 0..chars.len()
        invariant
            chars@ == s@,
            out@ == squeezed(s@.take(i as int)),
            after_space == (out@.len() > 0 && out@.last() == ' '),
    {
        assert(s@.take(i + 1).drop_last() =~= s@.take(i as int));
        let c = if chars[i] == '\n' || chars[i] == '\r' || chars[i] == '\t' {
            ' '
        } else {
            chars[i]
        };
        if !(c == ' ' && after_space) {
            out.push(c);
            after_space = c == ' ';
        }
    }
    assert(s@.take(s@.len() as int) =~= s@);
    let short = trim(out.as_str(), Edge::Space);
    take_head(short.as_str(), USER_TEXT_MAX)
}

proof fn lemma_squeezed(s: Seq<char>)
    ensures
        forall|i: int|
            0 <= i < squeezed(s).len() ==> {
                let c = #[trigger] squeezed(s)[i];
                c != '\n' && c != '\r' && c != '\t'
            },
        forall|i: int, j: int|
            0 <= i < squeezed(s).len() && j == i + 1 && j < squeezed(s).len() ==> !(
            #[trigger] squeezed(s)[i] == ' ' && #[trigger] squeezed(s)[j] == ' '),
    decreases s.len(),
{
    if s.len() > 0 {
        lemma_squeezed(s.drop_last());
        let before = squeezed(s.drop_last());
        let after = squeezed(s);
        assert forall|i: int| 0 <= i < after.len() implies {
            let c = #[trigger] after[i];
            c != '\n' && c != '\r' && c != '\t'
        } by {
            if i < before.len() {
                assert(after[i] == before[i]);
            }
        }
        assert forall|i: int, j: int|
            0 <= i < after.len() && j == i + 1 && j < after.len() implies !(
        #[trigger] after[i] == ' ' && #[trigger] after[j] == ' ') by {
            assert(after[i] == before[i]);
            if j < before.len() {
                assert(after[j] == before[j]);
            }
        }
    }
}

/// What is shown of a text fits on one line of limited length, holds no two
/// spaces in a row, and starts with none.
pub proof fn cleaned_text_is_one_short_line(s: Seq<char>)
    ensures
        cleaned(s).len() <= USER_TEXT_MAX,
        forall|i: int|
            0 <= i < cleaned(s).len() ==> {
                let c = #[trigger] cleaned(s)[i];
                c != '\n' && c != '\r' && c != '\t'
            },
        forall|i: int, j: int|
            0 <= i && j == i + 1 && j < cleaned(s).len() ==> !(#[trigger] cleaned(s)[i] == ' '
                && #[trigger] cleaned(s)[j] == ' '),
        cleaned(s).len() > 0 ==> !crate::text::is_space(cleaned(s)[0]),
{
    lemma_squeezed(s);
    let all = squeezed(s);
    let short = crate::text::trimmed(all, Edge::Space);
    let from = crate::text::lemma_trimmed_is_a_stretch(all, Edge::Space);
    assert forall|i: int| 0 <= i < cleaned(s).len() implies #[trigger] cleaned(s)[i] == all[from
        + i] by {
        assert(short[i] == all[from + i]);
    }
    assert forall|i: int, j: int|
        0 <= i && j == i + 1 && j < cleaned(s).len() implies !(#[trigger] cleaned(s)[i] == ' '
        && #[trigger] cleaned(s)[j] == ' ') by {
        assert(cleaned(s)[i] == all[from + i]);
        assert(cleaned(s)[j] == all[from + j]);
    }
}

// ------------------------------------------------------------ one session file

/// What is kept of a session.
#[derive(Clone, Debug)]
pub struct CodexSession {
    pub session_id: String,
    pub rollout_path: String,
    pub started_at: Timestamp,
    pub cwd: Option<String>,
    pub cli_version: Option<String>,
    pub first_user_text: Option<String>,
    pub model: Option<String>,
}

/// What a `CodexSession` says.
pub ghost struct Session {
    pub session_id: Seq<char>,
    pub rollout_path: Seq<char>,
    pub started_at: Timestamp,
    pub cwd: Option<Seq<char>>,
    pub cli_version: Option<Seq<char>>,
    pub first_user_text: Option<Seq<char>>,
    pub model: Option<Seq<char>>,
}

impl View for CodexSession {
    type V = Session;

    open spec fn view(&self) -> Session {
        Session {
            session_id: self.session_id@,
            rollout_path: self.rollout_path@,
            started_at: self.started_at,
            cwd: crate::text::opt_text(self.cwd),
            cli_version: crate::text::opt_text(self.cli_version),
            first_user_text: crate::text::opt_text(self.first_user_text),
            model: crate::text::opt_text(self.model),
        }
    }
}

impl CodexSession {
    pub fn copy(&self) -> (r: CodexSession)
        ensures
            r@ == self@,
    {
        CodexSession {
            session_id: self.session_id.clone(),
            rollout_path: self.rollout_path.clone(),
            started_at: self.started_at,
            cwd: copy_opt(&self.cwd),
            cli_version: copy_opt(&self.cli_version),
            first_user_text: copy_opt(&self.first_user_text),
            model: copy_opt(&self.model),
        }
    }
}

/// The most lines behind the first that are looked through.
pub const HEAD_LINES: u8 = 20;

/// The document on a line.
pub open spec fn line_document(line: Seq<char>) -> Option<JsonTree> {
    match crate::json::json_of_text(crate::text::trimmed(line, Edge::Space)) {
        Ok(tree) => Some(tree),
        Err(_) => None,
    }
}

/// The member `payload`, or nothing at all.
pub open spec fn payload(doc: JsonTree) -> JsonTree {
    match doc.get("payload"@) {
        Some(p) => p,
        None => JsonTree::Null,
    }
}

/// The session that a first document names, if it does: it has to be of the
/// type that starts a session.
pub open spec fn named_session(doc: JsonTree) -> Option<Seq<char>> {
    if doc.text_at("type"@) != Some("session_meta"@) {
        None
    } else {
        match payload(doc).text_at("id"@) {
            Some(id) => if id.len() > 0 {
                Some(id)
            } else {
                None
            },
            None => None,
        }
    }
}

/// When a session was started, as its first document says.
pub open spec fn start_text(doc: JsonTree) -> Option<Seq<char>> {
    crate::text::either(payload(doc).text_at("timestamp"@), doc.text_at("timestamp"@))
}

/// When a session was started: as its first document says, or else `now`.
pub open spec fn start_time(doc: JsonTree, now: Timestamp) -> Timestamp {
    match start_text(doc) {
        Some(s) => match crate::clock::rfc3339_time(s) {
            Some(t) => t,
            None => now,
        },
        None => now,
    }
}

/// What the user wrote first, once one more document has been seen.
pub open spec fn user_text_after(seen: Option<Seq<char>>, doc: JsonTree) -> Option<Seq<char>> {
    if seen is None && doc.text_at("type"@) == Some("event_msg"@) && payload(doc).text_at("type"@)
        == Some("user_message"@) {
        match payload(doc).text_at("message"@) {
            Some(m) => Some(cleaned(m)),
            None => None,
        }
    } else {
        seen
    }
}

/// The model, once one more document has been seen.
pub open spec fn model_after(seen: Option<Seq<char>>, doc: JsonTree) -> Option<Seq<char>> {
    match seen {
        Some(m) => Some(m),
        None => match payload(doc).text_at("model"@) {
            Some(m) => if m.len() > 0 {
                Some(m)
            } else {
                None
            },
            None => None,
        },
    }
}

/// A session while the head of its file is being read.
pub struct SessionHead {
    pub session: CodexSession,
    /// How many lines behind the first have been looked through.
    pub lines: u8,
}

/// The session once one more line has been looked through.
pub open spec fn session_after(s: Session, line: Seq<char>) -> Session {
    match line_document(line) {
        Some(doc) => Session {
            first_user_text: user_text_after(s.first_user_text, doc),
            model: model_after(s.model, doc),
            ..s
        },
        None => s,
    }
}

/// Whether nothing is left to be found out.
pub open spec fn complete(s: Session) -> bool {
    s.first_user_text is Some && s.model is Some
}

/// The session that starts with a document.
pub open spec fn session_started(doc: JsonTree, path: Seq<char>, now: Timestamp) -> Option<Session> {
    match named_session(doc) {
        Some(id) => Some(
            Session {
                session_id: id,
                rollout_path: path,
                started_at: start_time(doc, now),
                cwd: payload(doc).text_at("cwd"@),
                cli_version: payload(doc).text_at("cli_version"@),
                first_user_text: None,
                model: None,
            },
        ),
        None => None,
    }
}

pub open spec fn opt_session(o: Option<SessionHead>) -> Option<Session> {
    match o {
        Some(h) => Some(h.session@),
        None => None,
    }
}

fn payload_of(doc: &Json) -> (r: Json)
    ensures
        r@ == payload(doc@),
{
    match doc.get("payload") {
        Some(p) => p.copy(),
        None => Json::Null,
    }
}

fn says(doc: &Json, name: &str, wanted: &str) -> (r: bool)
    ensures
        r == (doc@.text_at(name@) == Some(wanted@)),
{
    match doc.text_under(name) {
        Some(s) => same_text(s.as_str(), wanted),
        None => false,
    }
}

impl SessionHead {
    /// Whether another line is to be read.
    pub open spec fn open(self) -> bool {
        self.lines < HEAD_LINES && !complete(self.session@)
    }

    /// Starts with the first document of a file, given the present time, which
    /// stands in for a start that the document does not say.
    pub fn of_document(doc: &Json, rollout_path: &str, now: Timestamp) -> (r: Option<SessionHead>)
        ensures
            opt_session(r) == session_started(doc@, rollout_path@, now),
            r is Some ==> r->Some_0.lines == 0,
    {
        if !says(doc, "type", "session_meta") {
            return None;
        }
        let body = payload_of(doc);
        let session_id = match body.text_under("id") {
            Some(id) => id,
            None => {
                return None;
            },
        };
        if session_id.as_str().is_empty() {
            return None;
        }
        let said = crate::text::or_text(body.text_under("timestamp"), doc.text_under("timestamp"));
        let parsed = match said {
            Some(s) => parse_rfc3339(s.as_str()),
            None => None,
        };
        let started_at = match parsed {
            Some(t) => t,
            None => now,
        };
        let session = CodexSession {
            session_id,
            rollout_path: rollout_path.to_owned(),
            started_at,
            cwd: body.text_under("cwd"),
            cli_version: body.text_under("cli_version"),
            first_user_text: None,
            model: None,
        };
        Some(SessionHead { session, lines: 0 })
    }

    /// Starts with the first line of a file, as of now. There is no session
    /// where the line holds no document that starts one.
    pub fn begin(first_line: &str, rollout_path: &str) -> (r: Option<SessionHead>)
        ensures
            r is Some ==> r->Some_0.lines == 0,
            match line_document(first_line@) {
                Some(doc) => exists|now: Timestamp|
                    now.valid() && opt_session(r) == #[trigger] session_started(
                        doc,
                        rollout_path@,
                        now,
                    ),
                None => r is None,
            },
    {
        match read_json_text(trim(first_line, Edge::Space).as_str()) {
            Ok(doc) => SessionHead::of_document(&doc, rollout_path, utc_now()),
            Err(_) => None,
        }
    }

    /// Whether another line is to be read.
    pub fn wants_more(&self) -> (r: bool)
        ensures
            r == self.open(),
    {
        self.lines < HEAD_LINES && !(self.session.first_user_text.is_some()
            && self.session.model.is_some())
    }

    /// Looks through one document.
    pub fn see(&mut self, doc: &Json)
        requires
            old(self).open(),
        ensures
            final(self).lines == old(self).lines + 1,
            final(self).session@ == (Session {
                first_user_text: user_text_after(old(self).session@.first_user_text, doc@),
                model: model_after(old(self).session@.model, doc@),
                ..old(self).session@
            }),
    {
        let body = payload_of(doc);
        if self.session.first_user_text.is_none() && says(doc, "type", "event_msg") && says(
            &body,
            "type",
            "user_message",
        ) {
            match body.text_under("message") {
                Some(m) => {
                    self.session.first_user_text = Some(clean_user_text(m.as_str()));
                },
                None => {},
            }
        }
        if self.session.model.is_none() {
            match body.text_under("model") {
                Some(m) => {
                    if !m.as_str().is_empty() {
                        self.session.model = Some(m);
                    }
                },
                None => {},
            }
        }
        self.lines = self.lines + 1;
    }

    /// Looks through one line. A line without a document counts as well.
    pub fn feed(&mut self, line: &str)
        requires
            old(self).open(),
        ensures
            final(self).lines == old(self).lines + 1,
            final(self).session@ == session_after(old(self).session@, line@),
    {
        match read_json_text(trim(line, Edge::Space).as_str()) {
            Ok(doc) => self.see(&doc),
            Err(_) => {
                self.lines = self.lines + 1;
            },
        }
    }
}

/// A session once the first `n` of the lines behind the first have come by:
/// no line is looked at once everything is known, nor beyond the limit.
pub open spec fn session_read(s: Session, lines: Seq<Seq<char>>, n: nat) -> Session
    decreases n,
{
    if n == 0 || n > lines.len() {
        s
    } else {
        let before = session_read(s, lines, (n - 1) as nat);
        if complete(before) || n > HEAD_LINES {
            before
        } else {
            session_after(before, lines[n - 1])
        }
    }
}

proof fn lemma_nothing_more_read(s: Session, lines: Seq<Seq<char>>, n: nat, m: nat)
    requires
        n <= m <= lines.len(),
        complete(session_read(s, lines, n)) || n >= HEAD_LINES,
    ensures
        session_read(s, lines, m) == session_read(s, lines, n),
    decreases m,
{
    if m > n {
        lemma_nothing_more_read(s, lines, n, (m - 1) as nat);
    }
}

/// The session in a file, given its first line and those behind it, as of now.
pub fn parse_session_head(first_line: &str, rest: &Vec<String>, rollout_path: &str) -> (r: Option<
    CodexSession,
>)
    ensures
        match line_document(first_line@) {
            Some(doc) => exists|now: Timestamp|
                now.valid() && match #[trigger] session_started(doc, rollout_path@, now) {
                    Some(s) => r is Some && r->Some_0@ == session_read(
                        s,
                        crate::text::texts(rest@),
                        rest@.len(),
                    ),
                    None => r is None,
                },
            None => r is None,
        },
{
    let mut head = match SessionHead::begin(first_line, rollout_path) {
        Some(h) => h,
        None => {
            return None;
        },
    };
    let ghost start = head.session@;
    let ghost lines = crate::text::texts(rest@);
    let mut i: usize = 0;
    while i < rest.len() && head.wants_more()
        invariant
            i <= rest@.len(),
            lines == crate::text::texts(rest@),
            head.lines == i,
            head.session@ == session_read(start, lines, i as nat),
        decreases rest@.len() - i,
    {
        assert(lines[i as int] == rest@[i as int]@);
        head.feed(rest[i].as_str());
        i += 1;
    }
    proof {
        if i < rest@.len() {
            lemma_nothing_more_read(start, lines, i as nat, rest@.len());
        }
    }
    Some(head.session)
}

// ------------------------------------------------------------------- selection

/// The most sessions that are listed where nobody says otherwise.
pub const LIST_LIMIT: usize = 50;

/// How many days back the list goes where nobody says otherwise.
pub const LIST_DAYS: u32 = 14;

/// The farthest back that a list may go, in days, whatever the present time.
pub const MOST_DAYS: u32 = 96_465_292;

pub open spec fn sessions_of(v: Seq<CodexSession>) -> Seq<Session> {
    Seq::new(v.len(), |i: int| v[i]@)
}

/// Whether a session is recent enough, and its directory holds the filter,
/// whatever the case of letters.
pub open spec fn listed(s: Session, filter: Option<Seq<char>>, cutoff: Timestamp) -> bool {
    &&& !s.started_at.earlier(cutoff)
    &&& match filter {
        Some(f) => crate::text::contains_text(
            crate::text::lowercase(crate::text::either(s.cwd, Some(""@))->Some_0),
            crate::text::lowercase(f),
        ),
        None => true,
    }
}

/// `list`, which is newest first, with one more session: before the first that
/// is older.
pub open spec fn placed(list: Seq<Session>, s: Session) -> Seq<Session>
    decreases list.len(),
{
    if list.len() == 0 {
        seq![s]
    } else if list[0].started_at.earlier(s.started_at) {
        seq![s] + list
    } else {
        seq![list[0]] + placed(list.skip(1), s)
    }
}

/// Those of the sessions that are listed, newest first, and in their own order
/// where two started at the same time.
pub open spec fn newest_first(
    all: Seq<Session>,
    filter: Option<Seq<char>>,
    cutoff: Timestamp,
) -> Seq<Session>
    decreases all.len(),
{
    if all.len() == 0 {
        Seq::empty()
    } else {
        let before = newest_first(all.drop_last(), filter, cutoff);
        if listed(all.last(), filter, cutoff) {
            placed(before, all.last())
        } else {
            before
        }
    }
}

/// Whether no session of a list is older than one behind it.
pub open spec fn descending(list: Seq<Session>) -> bool {
    forall|i: int, j: int|
        0 <= i < j < list.len() ==> !(#[trigger] list[i]).started_at.earlier(
            (#[trigger] list[j]).started_at,
        )
}

proof fn lemma_placed(list: Seq<Session>, s: Session)
    requires
        descending(list),
    ensures
        descending(placed(list, s)),
        placed(list, s).to_multiset() == list.to_multiset().insert(s),
        placed(list, s).len() == list.len() + 1,
        forall|i: int|
            0 <= i < placed(list, s).len() ==> {
                let it = #[trigger] placed(list, s)[i];
                it == s || list.contains(it)
            },
    decreases list.len(),
{
    broadcast use vstd::seq_lib::group_to_multiset_ensures;

    let after = placed(list, s);
    if list.len() == 0 {
        assert(after =~= Seq::<Session>::empty().push(s));
        assert(list =~= Seq::<Session>::empty());
    } else if list[0].started_at.earlier(s.started_at) {
        assert(after =~= list.insert(0, s));
        assert forall|i: int, j: int| 0 <= i < j < after.len() implies !(
        #[trigger] after[i]).started_at.earlier((#[trigger] after[j]).started_at) by {
            if i == 0 {
                assert(after[j] == list[j - 1]);
                assert(j == 1 || !list[0].started_at.earlier(list[j - 1].started_at));
            } else {
                assert(after[i] == list[i - 1] && after[j] == list[j - 1]);
            }
        }
        assert forall|i: int| 0 <= i < after.len() implies {
            let it = #[trigger] after[i];
            it == s || list.contains(it)
        } by {
            if i > 0 {
                assert(after[i] == list[i - 1]);
            }
        }
    } else {
        let rest = list.skip(1);
        assert(descending(rest)) by {
            assert forall|i: int, j: int| 0 <= i < j < rest.len() implies !(
            #[trigger] rest[i]).started_at.earlier((#[trigger] rest[j]).started_at) by {
                assert(rest[i] == list[i + 1] && rest[j] == list[j + 1]);
            }
        }
        lemma_placed(rest, s);
        let tail = placed(rest, s);
        assert(after =~= tail.insert(0, list[0]));
        assert(list =~= rest.insert(0, list[0]));
        assert(after.to_multiset() =~= list.to_multiset().insert(s));
        assert forall|i: int| 0 <= i < after.len() implies {
            let it = #[trigger] after[i];
            &&& it == s || list.contains(it)
            &&& !list[0].started_at.earlier(it.started_at)
        } by {
            if i > 0 {
                assert(after[i] == tail[i - 1]);
                if after[i] != s {
                    let k = choose|k: int| 0 <= k < rest.len() && rest[k] == after[i];
                    assert(list[k + 1] == after[i]);
                }
            }
        }
        assert forall|i: int, j: int| 0 <= i < j < after.len() implies !(
        #[trigger] after[i]).started_at.earlier((#[trigger] after[j]).started_at) by {
            assert(after[j] == tail[j - 1]);
            if i > 0 {
                assert(after[i] == tail[i - 1]);
            }
        }
    }
}

/// A list is newest first, and holds each session that is to be listed just as
/// often as it was there, and no other.
pub proof fn list_is_newest_first_and_complete(
    all: Seq<Session>,
    filter: Option<Seq<char>>,
    cutoff: Timestamp,
)
    ensures
        descending(newest_first(all, filter, cutoff)),
        newest_first(all, filter, cutoff).to_multiset() == all.filter(
            |s: Session| listed(s, filter, cutoff),
        ).to_multiset(),
    decreases all.len(),
{
    broadcast use vstd::seq_lib::group_to_multiset_ensures;

    let wanted = |s: Session| listed(s, filter, cutoff);
    reveal(Seq::filter);
    if all.len() > 0 {
        list_is_newest_first_and_complete(all.drop_last(), filter, cutoff);
        lemma_placed(newest_first(all.drop_last(), filter, cutoff), all.last());
        let kept = all.drop_last().filter(wanted);
        if listed(all.last(), filter, cutoff) {
            assert(all.filter(wanted) == kept.push(all.last()));
            assert(kept.push(all.last()).to_multiset() =~= kept.to_multiset().insert(all.last()));
        } else {
            assert(all.filter(wanted) == kept);
        }
    }
}

/// Puts a session into a list that is newest first.
fn place(list: &mut Vec<CodexSession>, s: CodexSession)
    ensures
        sessions_of(final(list)@) == placed(sessions_of(old(list)@), s@),
{
    let ghost all = sessions_of(list@);
    let ghost v = s@;
    let count: usize = list.len();
    assert(all.skip(0) =~= all);
    assert(all.take(0) + placed(all, v) =~= placed(all, v));
    for i in 0..count
        invariant
            count == list@.len(),
            *list == *old(list),
            all == sessions_of(list@),
            v == s@,
            placed(all, v) == all.take(i as int) + placed(all.skip(i as int), v),
    {
        let ghost rest = all.skip(i as int);
        assert(rest[0] == list@[i as int]@);
        if list[i].started_at.is_before(&s.started_at) {
            list.insert(i, s);
            assert(sessions_of(list@) =~= all.take(i as int) + (seq![v] + rest));
            return ;
        }
        assert(rest.skip(1) =~= all.skip(i + 1));
        assert(all.take(i as int) + (seq![rest[0]] + placed(rest.skip(1), v)) =~= all.take(i + 1)
            + placed(rest.skip(1), v));
    }
    assert(all.skip(count as int) =~= Seq::<Session>::empty());
    assert(all.take(count as int) =~= all);
    list.push(s);
    assert(sessions_of(list@) =~= all + seq![v]);
}

/// Selects the sessions to be listed, given the present time.
pub fn select_sessions(
    found: &Vec<CodexSession>,
    limit: Option<usize>,
    project_filter: Option<&str>,
    days_back: Option<u32>,
    now: Timestamp,
) -> (r: Vec<CodexSession>)
    requires
        now.valid(),
        now.secs - opt_days(days_back) * 86_400 >= FIRST_SECOND,
    ensures
        sessions_of(r@) == crate::text::head(
            newest_first(
                sessions_of(found@),
                crate::text::opt_str(project_filter),
                (Timestamp {
                    secs: (now.secs - opt_days(days_back) * 86_400) as i64,
                    nanos: now.nanos,
                }),
            ),
            match limit {
                Some(n) => n as int,
                None => LIST_LIMIT as int,
            },
        ),
{
    let limit: usize = match limit {
        Some(n) => n,
        None => LIST_LIMIT,
    };
    let days: u32 = match days_back {
        Some(d) => d,
        None => LIST_DAYS,
    };
    let cutoff = Timestamp { secs: now.secs - days as i64 * 86_400, nanos: now.nanos };
    let ghost filter = crate::text::opt_str(project_filter);
    let ghost all = sessions_of(found@);
    let wanted = match project_filter {
        Some(f) => Some(to_lowercase(f)),
        None => None,
    };
    let mut out: Vec<CodexSession> = Vec::new();
    assert(sessions_of(out@) =~= newest_first(all.take(0), filter, cutoff));
    for i in 0..found.len()
        invariant
            all == sessions_of(found@),
            filter == crate::text::opt_str(project_filter),
            wanted is Some <==> project_filter is Some,
            wanted is Some ==> wanted->Some_0@ == crate::text::lowercase(filter->Some_0),
            sessions_of(out@) == newest_first(all.take(i as int), filter, cutoff),
    {
        assert(all.take(i + 1).drop_last() =~= all.take(i as int));
        assert(all.take(i + 1).last() == found@[i as int]@);
        let inside = match &wanted {
            Some(f) => {
                let cwd = match &found[i].cwd {
                    Some(c) => to_lowercase(c.as_str()),
                    None => to_lowercase(""),
                };
                has_text(cwd.as_str(), f.as_str())
            },
            None => true,
        };
        if inside && !found[i].started_at.is_before(&cutoff) {
            place(&mut out, found[i].copy());
        }
    }
    assert(all.take(found@.len() as int) =~= all);
    let ghost whole = sessions_of(out@);
    if out.len() > limit {
        out.truncate(limit);
    }
    assert(sessions_of(out@) =~= crate::text::head(whole, limit as int));
    out
}

/// How many days back a list goes.
pub open spec fn opt_days(days_back: Option<u32>) -> int {
    match days_back {
        Some(d) => d as int,
        None => LIST_DAYS as int,
    }
}

/// Selects the sessions to be listed, as of now: those of the last days whose
/// directory holds the filter, newest first, up to a limit.
pub fn list_codex_sessions(
    found: &Vec<CodexSession>,
    limit: Option<usize>,
    project_filter: Option<&str>,
    days_back: Option<u32>,
) -> (r: Vec<CodexSession>)
    requires
        opt_days(days_back) <= MOST_DAYS,
    ensures
        exists|now: Timestamp|
            now.valid() && 0 <= now.secs && sessions_of(r@) == crate::text::head(
                #[trigger] newest_first(
                    sessions_of(found@),
                    crate::text::opt_str(project_filter),
                    since(now, opt_days(days_back)),
                ),
                match limit {
                    Some(n) => n as int,
                    None => LIST_LIMIT as int,
                },
            ),
{
    let now = utc_now();
    let r = select_sessions(found, limit, project_filter, days_back, now);
    assert(sessions_of(r@) == crate::text::head(
        newest_first(
            sessions_of(found@),
            crate::text::opt_str(project_filter),
            since(now, opt_days(days_back)),
        ),
        match limit {
            Some(n) => n as int,
            None => LIST_LIMIT as int,
        },
    ));
    r
}

/// The time some days before another.
pub open spec fn since(now: Timestamp, days: int) -> Timestamp {
    Timestamp { secs: (now.secs - days * 86_400) as i64, nanos: now.nanos }
}

// ----------------------------------------------------------------------- files

/// Whether a file of this name holds a session.
pub fn is_rollout_name(name: &str) -> (r: bool)
    ensures
        r == (crate::text::begins_with(name@, "rollout-"@) && crate::text::ends_with(
            name@,
            ".jsonl"@,
        )),
{
    starts_with(name, "rollout-") && finishes_with(name, ".jsonl")
}

/// A point in time in nanoseconds.
pub open spec fn nanoseconds(t: Timestamp) -> int {
    t.secs * 1_000_000_000 + t.nanos
}

fn nanos_of(t: &Timestamp) -> (r: i128)
    ensures
        r == nanoseconds(*t),
{
    t.secs as i128 * 1_000_000_000 + t.nanos as i128
}

/// Whether a file counts that was last written at `time`. One whose time is not
/// known does not, and one from before the window neither; a time ahead of the
/// clock does.
pub open spec fn counts(time: Option<Timestamp>, now: Timestamp, window_secs: Option<u64>) -> bool {
    match time {
        Some(t) => match window_secs {
            Some(w) => (nanoseconds(now) - nanoseconds(t)) < (w + 1) * 1_000_000_000,
            None => true,
        },
        None => false,
    }
}

/// Whether `i` is the first of the files last written, among those that count.
pub open spec fn is_newest(
    times: Seq<Option<Timestamp>>,
    now: Timestamp,
    window_secs: Option<u64>,
    i: int,
) -> bool {
    &&& 0 <= i < times.len()
    &&& counts(times[i], now, window_secs)
    &&& forall|j: int|
        0 <= j < times.len() && counts(#[trigger] times[j], now, window_secs) ==> nanoseconds(
            times[j]->Some_0,
        ) <= nanoseconds(times[i]->Some_0) && (j < i ==> nanoseconds(times[j]->Some_0)
            < nanoseconds(times[i]->Some_0))
}

/// The file last written among those that count, the first of them where there
/// are several.
fn newest(times: &Vec<Option<Timestamp>>, now: Timestamp, window_secs: Option<u64>) -> (r: Option<
    usize,
>)
    ensures
        match r {
            Some(i) => is_newest(times@, now, window_secs, i as int),
            None => forall|j: int|
                0 <= j < times@.len() ==> !counts(#[trigger] times@[j], now, window_secs),
        },
{
    let mut best: Option<usize> = None;
    for i in 0..times.len()
        invariant
            match best {
                Some(b) => is_newest(times@.take(i as int), now, window_secs, b as int),
                None => forall|j: int|
                    0 <= j < i ==> !counts(#[trigger] times@[j], now, window_secs),
            },
    {
        let ghost before = times@.take(i as int);
        let ghost after = times@.take(i + 1);
        assert(forall|j: int| 0 <= j < i ==> before[j] == after[j]);
        assert(after[i as int] == times@[i as int]);
        match &times[i] {
            Some(t) => {
                let inside = match window_secs {
                    Some(w) => nanos_of(&now) - nanos_of(t) < (w as i128 + 1) * 1_000_000_000,
                    None => true,
                };
                if inside {
                    let newer = match best {
                        Some(b) => match &times[b] {
                            Some(s) => nanos_of(s) < nanos_of(t),
                            None => true,
                        },
                        None => true,
                    };
                    if newer {
                        best = Some(i);
                    }
                }
            },
            None => {},
        }
        proof {
            match best {
                Some(b) => {
                    assert forall|j: int|
                        0 <= j < after.len() && counts(
                            #[trigger] after[j],
                            now,
                            window_secs,
                        ) implies nanoseconds(after[j]->Some_0) <= nanoseconds(
                        after[b as int]->Some_0,
                    ) && (j < b ==> nanoseconds(after[j]->Some_0) < nanoseconds(
                        after[b as int]->Some_0,
                    )) by {
                        if j < i {
                            assert(before[j] == after[j]);
                        }
                    }
                    assert(is_newest(after, now, window_secs, b as int));
                },
                None => {},
            }
        }
    }
    assert(times@.take(times@.len() as int) =~= times@);
    best
}

/// Which of the files holds the session that is active: the one last written,
/// where that was within the window.
pub fn pick_active(times: &Vec<Option<Timestamp>>, now: Timestamp, window_secs: u64) -> (r: Option<
    usize,
>)
    ensures
        match r {
            Some(i) => is_newest(times@, now, Some(window_secs), i as int),
            None => forall|j: int|
                0 <= j < times@.len() ==> !counts(#[trigger] times@[j], now, Some(window_secs)),
        },
{
    newest(times, now, Some(window_secs))
}

/// Which of the files was last written.
pub fn pick_latest(times: &Vec<Option<Timestamp>>) -> (r: Option<usize>)
    ensures
        match r {
            Some(i) => is_newest(times@, (Timestamp { secs: 0, nanos: 0 }), None, i as int),
            None => forall|j: int| 0 <= j < times@.len() ==> (#[trigger] times@[j]) is None,
        },
{
    let r = newest(times, Timestamp { secs: 0, nanos: 0 }, None);
    assert(r is None ==> forall|j: int|
        0 <= j < times@.len() ==> counts(
            #[trigger] times@[j],
            (Timestamp { secs: 0, nanos: 0 }),
            None,
        ) || times@[j] is None);
    r
}

// ------------------------------------------------------------------------- laws

/// Two filters that are the same in lower case list the same sessions.
pub proof fn case_of_the_filter_does_not_matter(
    all: Seq<Session>,
    filter: Seq<char>,
    other: Seq<char>,
    cutoff: Timestamp,
)
    requires
        crate::text::lowercase(filter) == crate::text::lowercase(other),
    ensures
        newest_first(all, Some(filter), cutoff) == newest_first(all, Some(other), cutoff),
    decreases all.len(),
{
    if all.len() > 0 {
        case_of_the_filter_does_not_matter(all.drop_last(), filter, other, cutoff);
    }
}

/// Two directories that are the same in lower case are listed under the same
/// filters.
pub proof fn case_of_the_directory_does_not_matter(
    s: Session,
    cwd: Seq<char>,
    other: Seq<char>,
    filter: Option<Seq<char>>,
    cutoff: Timestamp,
)
    requires
        crate::text::lowercase(cwd) == crate::text::lowercase(other),
    ensures
        newest_first(seq![Session { cwd: Some(cwd), ..s }], filter, cutoff).len()
            == newest_first(seq![Session { cwd: Some(other), ..s }], filter, cutoff).len(),
{
    let a = Session { cwd: Some(cwd), ..s };
    let b = Session { cwd: Some(other), ..s };
    let none = Seq::<Session>::empty();
    assert(seq![a].drop_last() =~= none && seq![b].drop_last() =~= none);
    reveal_with_fuel(newest_first, 2);
    assert(newest_first(none, filter, cutoff).len() == 0);
    assert(listed(a, filter, cutoff) == listed(b, filter, cutoff));
}

/// Whether a session started no earlier than the time from which on sessions are
/// listed.
pub open spec fn recent(s: Session, cutoff: Timestamp) -> bool {
    s.started_at.secs > cutoff.secs || (s.started_at.secs == cutoff.secs && s.started_at.nanos
        >= cutoff.nanos)
}

/// A recent session whose directory holds the filter as it is written is listed,
/// whatever stands around it, where the lower case of the directory is put
/// together of that of its parts. (What stands around a letter can decide its
/// lower case: a Greek sigma is written otherwise at the end of a word.)
pub proof fn session_in_the_wanted_directory_is_listed(
    all: Seq<Session>,
    i: int,
    before: Seq<char>,
    filter: Seq<char>,
    behind: Seq<char>,
    cutoff: Timestamp,
)
    requires
        0 <= i < all.len(),
        recent(all[i], cutoff),
        all[i].cwd == Some(before + filter + behind),
        crate::text::lowercase(before + filter + behind) == crate::text::lowercase(before)
            + crate::text::lowercase(filter) + crate::text::lowercase(behind),
    ensures
        newest_first(all, Some(filter), cutoff).contains(all[i]),
{
    crate::text::parts_of_a_text_are_found(
        crate::text::lowercase(before),
        crate::text::lowercase(filter),
        crate::text::lowercase(behind),
    );
    lemma_listed_is_there(all, i, Some(filter), cutoff);
}

/// A recent session is listed under the whole of its directory, and where there
/// is no filter it is listed wherever it ran.
pub proof fn session_is_listed_under_its_own_directory(
    all: Seq<Session>,
    i: int,
    cutoff: Timestamp,
)
    requires
        0 <= i < all.len(),
        recent(all[i], cutoff),
    ensures
        all[i].cwd is Some ==> newest_first(all, all[i].cwd, cutoff).contains(all[i]),
        newest_first(all, None, cutoff).contains(all[i]),
{
    if let Some(cwd) = all[i].cwd {
        let lower = crate::text::lowercase(cwd);
        assert(lower.subrange(0, lower.len() as int) =~= lower);
        assert(crate::text::occurs_at(lower, lower, 0));
        lemma_listed_is_there(all, i, Some(cwd), cutoff);
    }
    lemma_listed_is_there(all, i, None, cutoff);
}

proof fn lemma_listed_is_there(
    all: Seq<Session>,
    i: int,
    filter: Option<Seq<char>>,
    cutoff: Timestamp,
)
    requires
        0 <= i < all.len(),
        listed(all[i], filter, cutoff),
    ensures
        newest_first(all, filter, cutoff).contains(all[i]),
{
    broadcast use vstd::seq_lib::group_to_multiset_ensures;

    let wanted = |s: Session| listed(s, filter, cutoff);
    list_is_newest_first_and_complete(all, filter, cutoff);
    all.lemma_filter_contains(wanted, i);
    assert(all.filter(wanted).to_multiset().count(all[i]) > 0);
}

/// Whatever is listed was there, is recent, and ran in a directory whose lower
/// case holds that of the filter; one whose directory is not known counts as
/// having run in one without a name.
pub proof fn nothing_else_is_listed(
    all: Seq<Session>,
    filter: Option<Seq<char>>,
    cutoff: Timestamp,
    s: Session,
)
    requires
        newest_first(all, filter, cutoff).contains(s),
    ensures
        all.contains(s),
        recent(s, cutoff),
        filter is Some && s.cwd is Some ==> crate::text::contains_text(
            crate::text::lowercase(s.cwd->Some_0),
            crate::text::lowercase(filter->Some_0),
        ),
        filter is Some && s.cwd is None ==> crate::text::contains_text(
            crate::text::lowercase(""@),
            crate::text::lowercase(filter->Some_0),
        ),
    decreases all.len(),
{
    if all.len() > 0 {
        let before = newest_first(all.drop_last(), filter, cutoff);
        list_is_newest_first_and_complete(all.drop_last(), filter, cutoff);
        lemma_placed(before, all.last());
        if before.contains(s) {
            nothing_else_is_listed(all.drop_last(), filter, cutoff, s);
            let k = all.drop_last().index_of(s);
            assert(all[k] == s);
        } else {
            let list = newest_first(all, filter, cutoff);
            let k = list.index_of(s);
            assert(list[k] == s);
            assert(s == all.last());
        }
    }
}

/// Sessions that stand newest first already are listed in the order in which
/// they stand, and so are sessions that started at the same time.
pub proof fn sessions_in_order_stay_in_order(
    all: Seq<Session>,
    filter: Option<Seq<char>>,
    cutoff: Timestamp,
)
    requires
        forall|i: int, j: int|
            0 <= i < j < all.len() ==> !(#[trigger] all[i]).started_at.earlier(
                (#[trigger] all[j]).started_at,
            ),
    ensures
        newest_first(all, filter, cutoff) == all.filter(
            |s: Session| listed(s, filter, cutoff),
        ),
    decreases all.len(),
{
    let wanted = |s: Session| listed(s, filter, cutoff);
    reveal(Seq::filter);
    if all.len() > 0 {
        let front = all.drop_last();
        assert forall|i: int, j: int| 0 <= i < j < front.len() implies !(
        #[trigger] front[i]).started_at.earlier((#[trigger] front[j]).started_at) by {
            assert(front[i] == all[i] && front[j] == all[j]);
        }
        sessions_in_order_stay_in_order(front, filter, cutoff);
        let before = front.filter(wanted);
        assert forall|i: int| 0 <= i < before.len() implies !(
        #[trigger] before[i]).started_at.earlier(all.last().started_at) by {
            nothing_else_is_listed(front, filter, cutoff, before[i]);
            let k = front.index_of(before[i]);
            assert(all[k] == before[i]);
        }
        lemma_placed_last(before, all.last());
    }
}

proof fn lemma_placed_last(list: Seq<Session>, s: Session)
    requires
        forall|i: int|
            0 <= i < list.len() ==> !(#[trigger] list[i]).started_at.earlier(s.started_at),
    ensures
        placed(list, s) == list.push(s),
    decreases list.len(),
{
    if list.len() == 0 {
        assert(list.push(s) =~= seq![s]);
    } else {
        let rest = list.skip(1);
        assert(forall|i: int| 0 <= i < rest.len() ==> #[trigger] rest[i] == list[i + 1]);
        lemma_placed_last(rest, s);
        assert(seq![list[0]] + rest.push(s) =~= list.push(s));
    }
}

/// Where nobody says otherwise the list goes back two weeks and holds fifty
/// sessions; where somebody does, it goes back so many days of 24 hours.
pub proof fn list_goes_back_as_many_days_as_asked(days: u32, now: Timestamp)
    requires
        i64::MIN <= now.secs - 86_400 * days,
    ensures
        opt_days(None) == 14,
        opt_days(Some(days)) == days,
        LIST_LIMIT == 50,
        since(now, days as int).secs == now.secs - 86_400 * days,
        since(now, days as int).nanos == now.nanos,
{
}

/// A first document starts a session just where it is of the type that does, and
/// its payload has an id that is not empty. The session has that id, and the
/// directory and the version that the payload names.
pub proof fn session_starts_with_its_document(
    doc: JsonTree,
    body: JsonTree,
    id: Seq<char>,
    path: Seq<char>,
    now: Timestamp,
)
    ensures
        doc.get("type"@) == Some(JsonTree::Text("session_meta"@)) && doc.get("payload"@) == Some(
            body,
        ) && body.get("id"@) == Some(JsonTree::Text(id)) && id.len() > 0 ==> {
            let s = session_started(doc, path, now);
            &&& s is Some
            &&& s->Some_0.session_id == id
            &&& s->Some_0.rollout_path == path
            &&& s->Some_0.cwd == body.text_at("cwd"@)
            &&& s->Some_0.cli_version == body.text_at("cli_version"@)
            &&& s->Some_0.first_user_text is None
            &&& s->Some_0.model is None
        },
        session_started(doc, path, now) is Some ==> {
            &&& doc.get("type"@) == Some(JsonTree::Text("session_meta"@))
            &&& doc.get("payload"@) is Some
            &&& doc.get("payload"@)->Some_0.text_at("id"@) is Some
            &&& doc.get("payload"@)->Some_0.text_at("id"@)->Some_0.len() > 0
        },
{
}

/// A session started when its payload says, or else when the document around it
/// does, and where neither can be read, now.
pub proof fn session_started_when_its_document_says(
    doc: JsonTree,
    body: JsonTree,
    text: Seq<char>,
    path: Seq<char>,
    now: Timestamp,
)
    requires
        session_started(doc, path, now) is Some,
        doc.get("payload"@) == Some(body),
    ensures
        ({
            let started = session_started(doc, path, now)->Some_0.started_at;
            let read = crate::clock::rfc3339_time(text);
            &&& body.get("timestamp"@) == Some(JsonTree::Text(text)) && read is Some ==> started
                == read->Some_0
            &&& body.text_at("timestamp"@) is None && doc.get("timestamp"@) == Some(
                JsonTree::Text(text),
            ) && read is Some ==> started == read->Some_0
            &&& body.get("timestamp"@) == Some(JsonTree::Text(text)) && read is None ==> started
                == now
            &&& body.text_at("timestamp"@) is None && doc.text_at("timestamp"@) is None ==> started
                == now
        }),
{
}

/// A line on which the user wrote something tells what was written first, unless
/// an earlier one did; no other line tells it.
pub proof fn first_thing_the_user_wrote_is_kept(
    s: Session,
    line: Seq<char>,
    doc: JsonTree,
    body: JsonTree,
    message: Seq<char>,
)
    requires
        crate::json::json_of_text(crate::text::trimmed(line, Edge::Space)) == Ok::<
            JsonTree,
            Seq<char>,
        >(doc),
        doc.get("payload"@) == Some(body),
    ensures
        s.first_user_text is Some ==> session_after(s, line).first_user_text == s.first_user_text,
        s.first_user_text is None && doc.get("type"@) == Some(JsonTree::Text("event_msg"@))
            && body.get("type"@) == Some(JsonTree::Text("user_message"@)) && body.get("message"@)
            == Some(JsonTree::Text(message)) ==> session_after(s, line).first_user_text == Some(
            cleaned(message),
        ),
        s.first_user_text is None && (doc.get("type"@) != Some(JsonTree::Text("event_msg"@))
            || body.get("type"@) != Some(JsonTree::Text("user_message"@)) || body.text_at(
            "message"@,
        ) is None) ==> session_after(s, line).first_user_text is None,
{
}

/// The first line whose payload names a model tells the model, and no line
/// changes anything else of a session.
pub proof fn first_model_is_kept(
    s: Session,
    line: Seq<char>,
    doc: JsonTree,
    body: JsonTree,
    model: Seq<char>,
)
    requires
        crate::json::json_of_text(crate::text::trimmed(line, Edge::Space)) == Ok::<
            JsonTree,
            Seq<char>,
        >(doc),
        doc.get("payload"@) == Some(body),
    ensures
        s.model is Some ==> session_after(s, line).model == s.model,
        s.model is None && body.get("model"@) == Some(JsonTree::Text(model)) && model.len() > 0
            ==> session_after(s, line).model == Some(model),
        s.model is None && (body.text_at("model"@) is None || body.get("model"@) == Some(
            JsonTree::Text(Seq::empty()),
        )) ==> session_after(s, line).model is None,
        session_after(s, line).session_id == s.session_id,
        session_after(s, line).rollout_path == s.rollout_path,
        session_after(s, line).started_at == s.started_at,
        session_after(s, line).cwd == s.cwd,
        session_after(s, line).cli_version == s.cli_version,
{
}

/// A line without a document, or whose document has no payload, tells nothing.
pub proof fn line_without_a_payload_tells_nothing(s: Session, line: Seq<char>)
    requires
        match crate::json::json_of_text(crate::text::trimmed(line, Edge::Space)) {
            Ok(doc) => doc.get("payload"@) is None,
            Err(_) => true,
        },
    ensures
        session_after(s, line) == s,
{
}

/// Of the lines behind the first the next twenty are looked through, each as it
/// comes, and none behind them.
pub proof fn twenty_lines_are_looked_through(s: Session, lines: Seq<Seq<char>>, n: nat)
    requires
        n < lines.len(),
    ensures
        session_read(s, lines, 0) == s,
        n < 20 ==> session_read(s, lines, n + 1) == session_after(
            session_read(s, lines, n),
            lines[n as int],
        ),
        n >= 20 ==> session_read(s, lines, n + 1) == session_read(s, lines, n),
{
}

/// A text of at most 200 characters that stands on one line, with no blanks at
/// its ends and no two in a row, is shown as it is.
pub proof fn tidy_text_stays_as_it_is(s: Seq<char>)
    requires
        s.len() <= 200,
        forall|i: int|
            0 <= i < s.len() ==> (#[trigger] s[i]) != '\n' && s[i] != '\r' && s[i] != '\t',
        forall|i: int, j: int|
            0 <= i && j == i + 1 && j < s.len() ==> !(#[trigger] s[i] == ' ' && #[trigger] s[j]
                == ' '),
        s.len() > 0 ==> !crate::text::is_space(s[0]) && !crate::text::is_space(s.last()),
    ensures
        cleaned(s) == s,
{
    lemma_squeezed_tidy(s);
}

proof fn lemma_squeezed_tidy(s: Seq<char>)
    requires
        forall|i: int|
            0 <= i < s.len() ==> (#[trigger] s[i]) != '\n' && s[i] != '\r' && s[i] != '\t',
        forall|i: int, j: int|
            0 <= i && j == i + 1 && j < s.len() ==> !(#[trigger] s[i] == ' ' && #[trigger] s[j]
                == ' '),
    ensures
        squeezed(s) == s,
    decreases s.len(),
{
    if s.len() > 0 {
        let front = s.drop_last();
        assert forall|i: int, j: int| 0 <= i && j == i + 1 && j < front.len() implies !(
        #[trigger] front[i] == ' ' && #[trigger] front[j] == ' ') by {
            assert(front[i] == s[i] && front[j] == s[j]);
        }
        lemma_squeezed_tidy(front);
        if front.len() > 0 {
            let k = front.len() - 1;
            assert(front.last() == s[k]);
            assert(s.last() == s[k + 1]);
        }
        assert(front.push(s.last()) =~= s);
    }
}

/// Blanks, tabs and line ends count alike, and two in a row count as one,
/// wherever in a text they stand.
pub proof fn blanks_in_a_row_count_as_one(a: Seq<char>, x: char, y: char, b: Seq<char>)
    requires
        x == ' ' || x == '\n' || x == '\r' || x == '\t',
        y == ' ' || y == '\n' || y == '\r' || y == '\t',
    ensures
        cleaned(a.push(x).push(y) + b) == cleaned(a.push(' ') + b),
        cleaned(a.push(x) + b) == cleaned(a.push(' ') + b),
{
    lemma_blanks_squeezed(a, x, y, b);
}

proof fn lemma_blanks_squeezed(a: Seq<char>, x: char, y: char, b: Seq<char>)
    requires
        x == ' ' || x == '\n' || x == '\r' || x == '\t',
        y == ' ' || y == '\n' || y == '\r' || y == '\t',
    ensures
        squeezed(a.push(x).push(y) + b) == squeezed(a.push(' ') + b),
        squeezed(a.push(x) + b) == squeezed(a.push(' ') + b),
    decreases b.len(),
{
    let one = a.push(' ');
    let other = a.push(x);
    let two = a.push(x).push(y);
    if b.len() == 0 {
        assert(two + b =~= two && one + b =~= one && other + b =~= other);
        assert(one.drop_last() =~= a && other.drop_last() =~= a && two.drop_last() =~= other);
        assert(on_one_line(one.last()) == ' ' && on_one_line(other.last()) == ' ');
        assert(on_one_line(two.last()) == ' ');
        assert(squeezed(other) == squeezed(one));
        assert(squeezed(other).len() > 0 && squeezed(other).last() == ' ');
    } else {
        lemma_blanks_squeezed(a, x, y, b.drop_last());
        assert((two + b).drop_last() =~= two + b.drop_last());
        assert((one + b).drop_last() =~= one + b.drop_last());
        assert((other + b).drop_last() =~= other + b.drop_last());
        assert((two + b).last() == b.last() && (one + b).last() == b.last());
        assert((other + b).last() == b.last());
    }
}

/// A character that can be seen is kept where it stands in a text.
pub proof fn characters_are_kept(s: Seq<char>, c: char)
    requires
        c != ' ' && c != '\n' && c != '\r' && c != '\t',
    ensures
        squeezed(s.push(c)) == squeezed(s).push(c),
{
    assert(s.push(c).drop_last() =~= s);
}

/// A file counts just where no more whole seconds have gone by since it was
/// written than the window has; one ahead of the clock counts, and where there is
/// no window, every one whose time is known.
pub proof fn file_counts_within_the_window(
    t: Timestamp,
    now: Timestamp,
    window_secs: u64,
    seconds: int,
)
    requires
        seconds * 1_000_000_000 <= (now.secs * 1_000_000_000 + now.nanos) - (t.secs * 1_000_000_000
            + t.nanos) < (seconds + 1) * 1_000_000_000,
    ensures
        counts(Some(t), now, Some(window_secs)) <==> seconds <= window_secs,
        counts(Some(t), now, None),
        !counts(None, now, Some(window_secs)) && !counts(None, now, None),
{
}

/// The file that is picked counts, none that counts was written later, and of
/// those written at the same time it is the first.
pub proof fn picked_file_was_written_last(
    times: Seq<Option<Timestamp>>,
    now: Timestamp,
    window_secs: Option<u64>,
    i: int,
    j: int,
)
    requires
        is_newest(times, now, window_secs, i),
        0 <= j < times.len(),
        counts(times[j], now, window_secs),
        times[i]->Some_0.nanos < 1_000_000_000,
        times[j]->Some_0.nanos < 1_000_000_000,
    ensures
        times[i] is Some && counts(times[i], now, window_secs),
        !times[i]->Some_0.earlier(times[j]->Some_0),
        times[i] == times[j] ==> i <= j,
{
    crate::clock::earlier_is_fewer_nanoseconds(times[i]->Some_0, times[j]->Some_0);
}

/// What is kept of a session is told field by field, and a list of sessions is
/// told one by one.
pub proof fn sessions_are_told_field_by_field(s: CodexSession, list: Seq<CodexSession>, i: int)
    ensures
        s@.session_id == s.session_id@ && s@.rollout_path == s.rollout_path@,
        s@.started_at == s.started_at,
        s@.cwd == crate::text::opt_text(s.cwd),
        s@.cli_version == crate::text::opt_text(s.cli_version),
        s@.first_user_text == crate::text::opt_text(s.first_user_text),
        s@.model == crate::text::opt_text(s.model),
        sessions_of(list).len() == list.len(),
        0 <= i < list.len() ==> sessions_of(list)[i] == list[i]@,
{
}

/// Another line is to be read as long as fewer than twenty were, and either what
/// the user wrote or the model is not known yet.
pub proof fn lines_are_read_until_all_is_known(h: SessionHead)
    ensures
        h.open() <==> h.lines < 20 && (h.session.first_user_text is None || h.session.model is None),
        opt_session(Some(h)) == Some(h.session@),
        opt_session(None) is None,
{
}

} // verus!
