//! Text as sequences of characters: searching, trimming, splitting and
//! writing numbers.
use vstd::prelude::*;

verus! {

/// `String::push` appends one character to the end of the string.
pub assume_specification[ String::push ](s: &mut String, c: char)
    ensures
        final(s)@ == old(s)@.push(c),
;

/// The lower-case form that Unicode gives to a text, as the standard library
/// computes it.
pub uninterp spec fn lowercase(s: Seq<char>) -> Seq<char>;

/// Calls `str::to_lowercase`. The result is a function of the text alone; what
/// Unicode's tables make of each character is not stated here.
#[verifier::external_body]
pub(crate) fn to_lowercase(s: &str) -> (r: String)
    ensures
        r@ == lowercase(s@),
{
    s.to_lowercase()
}

/// The characters of a borrowed text, if there is one.
pub open spec fn opt_str(o: Option<&str>) -> Option<Seq<char>> {
    match o {
        Some(s) => Some(s@),
        None => None,
    }
}

/// The characters of an owned text, if there is one.
pub open spec fn opt_text(o: Option<String>) -> Option<Seq<char>> {
    match o {
        Some(s) => Some(s@),
        None => None,
    }
}

/// The characters of each text of a list.
pub open spec fn texts(v: Seq<String>) -> Seq<Seq<char>> {
    Seq::new(v.len(), |i: int| v[i]@)
}

/// The characters of `s`, in order.
pub fn chars_of(s: &str) -> (r: Vec<char>)
    ensures
        r@ == s@,
{
    let mut out: Vec<char> = Vec::new();
    for c in it: s.chars()
        invariant
            out@ == s@.take(it.index()),
            it.seq() == s@,
    {
        out.push(c);
    }
    out
}

/// The text made of the characters `chars[from..to]`.
pub fn string_of(chars: &Vec<char>, from: usize, to: usize) -> (r: String)
    requires
        from <= to <= chars@.len(),
    ensures
        r@ == chars@.subrange(from as int, to as int),
{
    let mut out: String = String::new();
    for i in from..to
        invariant
            from <= to <= chars@.len(),
            out@ == chars@.subrange(from as int, i as int),
    {
        out.push(chars[i]);
    }
    out
}

/// Whether two texts hold the same characters.
pub fn same_text(a: &str, b: &str) -> (r: bool)
    ensures
        r == (a@ == b@),
{
    a.to_owned() == b.to_owned()
}

/// An owned copy of an optional text.
pub fn copy_opt(o: &Option<String>) -> (r: Option<String>)
    ensures
        opt_text(r) == opt_text(*o),
{
    match o {
        Some(s) => Some(s.clone()),
        None => None,
    }
}

/// The first text, or where there is none the second.
pub open spec fn either(a: Option<Seq<char>>, b: Option<Seq<char>>) -> Option<Seq<char>> {
    match a {
        Some(s) => Some(s),
        None => b,
    }
}

/// The first text, or where there is none the second.
pub fn or_text(a: Option<String>, b: Option<String>) -> (r: Option<String>)
    ensures
        opt_text(r) == either(opt_text(a), opt_text(b)),
{
    match a {
        Some(s) => Some(s),
        None => b,
    }
}

/// One text behind another.
pub fn joined(a: &str, b: &str) -> (r: String)
    ensures
        r@ == a@ + b@,
{
    let mut out = a.to_owned();
    out.append(b);
    out
}

/// Three texts, one behind another.
pub fn joined3(a: &str, b: &str, c: &str) -> (r: String)
    ensures
        r@ == a@ + b@ + c@,
{
    let mut out = joined(a, b);
    out.append(c);
    out
}

/// Whether one of the texts of `list` is `wanted`.
pub fn list_has(list: &Vec<String>, wanted: &str) -> (r: bool)
    ensures
        r == texts(list@).contains(wanted@),
{
    for i in 0..list.len()
        invariant
            forall|j: int| 0 <= j < i ==> list@[j]@ != wanted@,
    {
        if same_text(list[i].as_str(), wanted) {
            assert(texts(list@)[i as int] == wanted@);
            return true;
        }
    }
    false
}

// ---------------------------------------------------------------- searching

/// Whether `needle` stands in `s` at position `i`.
pub open spec fn occurs_at(s: Seq<char>, needle: Seq<char>, i: int) -> bool {
    &&& 0 <= i
    &&& i + needle.len() <= s.len()
    &&& s.subrange(i, i + needle.len()) == needle
}

/// Whether `needle` stands anywhere in `s`.
pub open spec fn contains_text(s: Seq<char>, needle: Seq<char>) -> bool {
    exists|i: int| occurs_at(s, needle, i)
}

fn matches_at(s: &Vec<char>, needle: &Vec<char>, at: usize) -> (r: bool)
    requires
        at + needle@.len() <= s@.len(),
    ensures
        r == occurs_at(s@, needle@, at as int),
{
    let len: usize = s.len();
    for k in 0..needle.len()
        invariant
            len == s@.len(),
            at + needle@.len() <= s@.len(),
            forall|j: int| 0 <= j < k ==> s@[at + j] == needle@[j],
    {
        if s[at + k] != needle[k] {
            assert(s@.subrange(at as int, at + needle@.len())[k as int] != needle@[k as int]);
            return false;
        }
    }
    assert(s@.subrange(at as int, at + needle@.len()) == needle@);
    true
}

/// The first position at which `needle` stands in `s`.
pub fn find_text(s: &Vec<char>, needle: &Vec<char>) -> (r: Option<usize>)
    ensures
        match r {
            Some(i) => occurs_at(s@, needle@, i as int) && forall|j: int|
                j < i ==> !occurs_at(s@, needle@, j),
            None => !contains_text(s@, needle@),
        },
{
    if needle.len() > s.len() {
        return None;
    }
    let last: usize = s.len() - needle.len();
    for i in 0..last
        invariant
            last == s@.len() - needle@.len(),
            forall|j: int| j < i ==> !occurs_at(s@, needle@, j),
    {
        if matches_at(s, needle, i) {
            return Some(i);
        }
    }
    if matches_at(s, needle, last) {
        return Some(last);
    }
    None
}

/// Whether `needle` stands anywhere in `s`.
pub fn has_text(s: &str, needle: &str) -> (r: bool)
    ensures
        r == contains_text(s@, needle@),
{
    let s = chars_of(s);
    let needle = chars_of(needle);
    match find_text(&s, &needle) {
        Some(_) => true,
        None => false,
    }
}

/// Whether `s` begins with `head`.
pub open spec fn begins_with(s: Seq<char>, head: Seq<char>) -> bool {
    occurs_at(s, head, 0)
}

/// Whether `s` ends with `tail`.
pub open spec fn ends_with(s: Seq<char>, tail: Seq<char>) -> bool {
    occurs_at(s, tail, s.len() - tail.len())
}

/// Whether `s` begins with `head`.
pub fn starts_with(s: &str, head: &str) -> (r: bool)
    ensures
        r == begins_with(s@, head@),
{
    let s = chars_of(s);
    let head = chars_of(head);
    head.len() <= s.len() && matches_at(&s, &head, 0)
}

/// Whether `s` ends with `tail`.
pub fn finishes_with(s: &str, tail: &str) -> (r: bool)
    ensures
        r == ends_with(s@, tail@),
{
    let s = chars_of(s);
    let tail = chars_of(tail);
    tail.len() <= s.len() && matches_at(&s, &tail, s.len() - tail.len())
}

// ------------------------------------------------------------- letter case

/// The ASCII lower-case form of one character.
pub open spec fn ascii_lower(c: char) -> char {
    if 'A' <= c <= 'Z' {
        (c as int + 32) as char
    } else {
        c
    }
}

/// A text with its ASCII letters in lower case and all else as it was.
pub open spec fn ascii_lowercase(s: Seq<char>) -> Seq<char> {
    s.map_values(|c: char| ascii_lower(c))
}

fn lower_char(c: char) -> (r: char)
    ensures
        r == ascii_lower(c),
{
    if 'A' <= c && c <= 'Z' {
        let b: u8 = c as u8;
        (b + 32) as char
    } else {
        c
    }
}

/// The text with its ASCII letters in lower case.
pub fn to_ascii_lowercase(s: &str) -> (r: String)
    ensures
        r@ == ascii_lowercase(s@),
{
    let mut out: String = String::new();
    for c in it: s.chars()
        invariant
            it.seq() == s@,
            out@ == ascii_lowercase(s@.take(it.index())),
    {
        let ghost before = s@.take(it.index());
        out.push(lower_char(c));
        assert(s@.take(it.index() + 1) == before.push(c));
        assert(out@ == ascii_lowercase(before.push(c)));
    }
    assert(s@.take(s@.len() as int) == s@);
    out
}

// ---------------------------------------------------------------- trimming

/// The characters that a trim takes off the ends of a text.
#[derive(Clone, Copy)]
pub enum Edge {
    /// Unicode white space.
    Space,
    /// `/`
    Slash,
    /// `'` and `"`
    Quote,
    /// `'`, `"`, a backquote and a backslash
    ShellQuote,
}

/// Whether Unicode counts `c` as white space.
pub open spec fn is_space(c: char) -> bool {
    ||| '\u{9}' <= c <= '\u{d}'
    ||| c == ' '
    ||| c == '\u{85}'
    ||| c == '\u{a0}'
    ||| c == '\u{1680}'
    ||| '\u{2000}' <= c <= '\u{200a}'
    ||| c == '\u{2028}'
    ||| c == '\u{2029}'
    ||| c == '\u{202f}'
    ||| c == '\u{205f}'
    ||| c == '\u{3000}'
}

/// Whether Unicode counts `c` as white space.
pub fn is_whitespace(c: char) -> (r: bool)
    ensures
        r == is_space(c),
{
    ('\u{9}' <= c && c <= '\u{d}') || c == ' ' || c == '\u{85}' || c == '\u{a0}' || c == '\u{1680}' || (
    '\u{2000}' <= c && c <= '\u{200a}') || c == '\u{2028}' || c == '\u{2029}' || c == '\u{202f}' || c
        == '\u{205f}' || c == '\u{3000}'
}

impl Edge {
    /// Whether the trim takes `c` off.
    pub open spec fn takes(self, c: char) -> bool {
        match self {
            Edge::Space => is_space(c),
            Edge::Slash => c == '/',
            Edge::Quote => c == '\'' || c == '"',
            Edge::ShellQuote => c == '\'' || c == '"' || c == '`' || c == '\\',
        }
    }

    fn holds(self, c: char) -> (r: bool)
        ensures
            r == self.takes(c),
    {
        match self {
            Edge::Space => is_whitespace(c),
            Edge::Slash => c == '/',
            Edge::Quote => c == '\'' || c == '"',
            Edge::ShellQuote => c == '\'' || c == '"' || c == '`' || c == '\\',
        }
    }
}

/// `s` without the characters of `e` at its front.
pub open spec fn trim_front(s: Seq<char>, e: Edge) -> Seq<char>
    decreases s.len(),
{
    if s.len() > 0 && e.takes(s[0]) {
        trim_front(s.skip(1), e)
    } else {
        s
    }
}

/// `s` without the characters of `e` at its back.
pub open spec fn trim_back(s: Seq<char>, e: Edge) -> Seq<char>
    decreases s.len(),
{
    if s.len() > 0 && e.takes(s.last()) {
        trim_back(s.drop_last(), e)
    } else {
        s
    }
}

/// `s` without the characters of `e` at its ends.
pub open spec fn trimmed(s: Seq<char>, e: Edge) -> Seq<char> {
    trim_back(trim_front(s, e), e)
}

/// The end of `s[from..to]` once the characters of `e` at its back are gone.
fn back_edge(s: &Vec<char>, from: usize, to: usize, e: Edge) -> (r: usize)
    requires
        from <= to <= s@.len(),
    ensures
        from <= r <= to,
        s@.subrange(from as int, r as int) == trim_back(s@.subrange(from as int, to as int), e),
{
    let mut end: usize = to;
    while end > from && e.holds(s[end - 1])
        invariant
            from <= end <= to <= s@.len(),
            trim_back(s@.subrange(from as int, end as int), e) == trim_back(
                s@.subrange(from as int, to as int),
                e,
            ),
        decreases end,
    {
        assert(s@.subrange(from as int, end as int).drop_last() == s@.subrange(
            from as int,
            end - 1,
        ));
        end -= 1;
    }
    end
}

/// The start of `s` once the characters of `e` at its front are gone.
fn front_edge(s: &Vec<char>, e: Edge) -> (r: usize)
    ensures
        r <= s@.len(),
        s@.skip(r as int) == trim_front(s@, e),
{
    let mut start: usize = 0;
    assert(s@.skip(0) == s@);
    while start < s.len() && e.holds(s[start])
        invariant
            start <= s@.len(),
            trim_front(s@.skip(start as int), e) == trim_front(s@, e),
        decreases s@.len() - start,
    {
        assert(s@.skip(start as int).skip(1) == s@.skip(start + 1));
        start += 1;
    }
    start
}

/// `s` without the characters of `e` at its ends.
pub fn trim(s: &str, e: Edge) -> (r: String)
    ensures
        r@ == trimmed(s@, e),
{
    let chars = chars_of(s);
    let start: usize = front_edge(&chars, e);
    let end: usize = back_edge(&chars, start, chars.len(), e);
    assert(chars@.subrange(start as int, chars@.len() as int) == chars@.skip(start as int));
    string_of(&chars, start, end)
}

/// `s` without the characters of `e` at its back.
pub fn trim_end(s: &str, e: Edge) -> (r: String)
    ensures
        r@ == trim_back(s@, e),
{
    let chars = chars_of(s);
    let end: usize = back_edge(&chars, 0, chars.len(), e);
    assert(chars@.subrange(0, chars@.len() as int) == chars@);
    string_of(&chars, 0, end)
}

/// What is left at the back of a trimmed text is not taken off again.
pub proof fn lemma_trim_back_stops(s: Seq<char>, e: Edge)
    ensures
        trim_back(s, e).len() == 0 || !e.takes(trim_back(s, e).last()),
        trim_back(trim_back(s, e), e) == trim_back(s, e),
        trim_back(s, e).len() <= s.len(),
        trim_back(s, e) == s.take(trim_back(s, e).len() as int),
    decreases s.len(),
{
    if s.len() > 0 && e.takes(s.last()) {
        lemma_trim_back_stops(s.drop_last(), e);
        let n = trim_back(s, e).len() as int;
        assert(s.drop_last().take(n) == s.take(n));
    } else {
        assert(s.take(s.len() as int) == s);
    }
}

/// What is left at the front of a trimmed text is not taken off again.
pub proof fn lemma_trim_front_stops(s: Seq<char>, e: Edge)
    ensures
        trim_front(s, e).len() == 0 || !e.takes(trim_front(s, e)[0]),
        trim_front(s, e).len() <= s.len(),
        trim_front(s, e) == s.skip(s.len() - trim_front(s, e).len()),
    decreases s.len(),
{
    if s.len() > 0 && e.takes(s[0]) {
        lemma_trim_front_stops(s.skip(1), e);
        let n = trim_front(s, e).len() as int;
        assert(s.skip(1).skip(s.len() - 1 - n) == s.skip(s.len() - n));
    } else {
        assert(s.skip(0) == s);
    }
}

/// A trimmed text is a stretch of the whole one, from the position that is
/// returned, and does not start with what was trimmed off.
pub proof fn lemma_trimmed_is_a_stretch(s: Seq<char>, e: Edge) -> (from: int)
    ensures
        0 <= from,
        from + trimmed(s, e).len() <= s.len(),
        forall|i: int| 0 <= i < trimmed(s, e).len() ==> #[trigger] trimmed(s, e)[i] == s[from + i],
        trimmed(s, e).len() > 0 ==> !e.takes(trimmed(s, e)[0]),
{
    let f = trim_front(s, e);
    lemma_trim_front_stops(s, e);
    lemma_trim_back_stops(f, e);
    s.len() - f.len()
}

/// Trimming a trimmed text changes nothing.
pub proof fn trimming_twice_changes_nothing(s: Seq<char>, e: Edge)
    ensures
        trimmed(trimmed(s, e), e) == trimmed(s, e),
{
    let f = trim_front(s, e);
    lemma_trim_front_stops(s, e);
    lemma_trim_back_stops(f, e);
    let t = trimmed(s, e);
    if t.len() > 0 {
        assert(t[0] == f[0]);
    }
    assert(trim_front(t, e) == t);
}

// --------------------------------------------------------------- splitting

/// The first position of `c` in `s`, or the length of `s` where there is none.
pub open spec fn first_index(s: Seq<char>, c: char) -> int
    decreases s.len(),
{
    if s.len() == 0 || s[0] == c {
        0
    } else {
        1 + first_index(s.skip(1), c)
    }
}

/// What stands in `s` before the first `c`: all of it where there is none.
pub open spec fn before(s: Seq<char>, c: char) -> Seq<char> {
    s.take(first_index(s, c))
}

/// What stands in `s` behind the first `c`.
pub open spec fn behind(s: Seq<char>, c: char) -> Seq<char> {
    s.skip(first_index(s, c) + 1)
}

/// The pieces of `s` between the places where `c` stands.
pub open spec fn split_on(s: Seq<char>, c: char) -> Seq<Seq<char>>
    decreases s.len(),
{
    if s.contains(c) {
        proof {
            lemma_first_index(s, c);
        }
        seq![before(s, c)] + split_on(behind(s, c), c)
    } else {
        seq![s]
    }
}

/// Where the first position of a character lies.
pub proof fn lemma_first_index(s: Seq<char>, c: char)
    ensures
        0 <= first_index(s, c) <= s.len(),
        first_index(s, c) < s.len() <==> s.contains(c),
        first_index(s, c) < s.len() ==> s[first_index(s, c)] == c,
        forall|j: int| 0 <= j < first_index(s, c) ==> s[j] != c,
    decreases s.len(),
{
    if s.len() > 0 && s[0] != c {
        let t = s.skip(1);
        lemma_first_index(t, c);
        assert forall|j: int| 0 <= j < first_index(s, c) implies s[j] != c by {
            if j > 0 {
                assert(t[j - 1] == s[j]);
            }
        }
        if s.contains(c) {
            let k = s.index_of(c);
            assert(t[k - 1] == c);
        }
        if t.contains(c) {
            let k = t.index_of(c);
            assert(s[k + 1] == c);
        }
    } else if s.len() > 0 {
        assert(s[0] == c);
    }
}

/// The first position of `c` at or behind `from`, or the length of `s`.
fn seek(s: &Vec<char>, from: usize, c: char) -> (r: usize)
    requires
        from <= s@.len(),
    ensures
        from <= r <= s@.len(),
        r - from == first_index(s@.skip(from as int), c),
{
    let mut i: usize = from;
    while i < s.len() && s[i] != c
        invariant
            from <= i <= s@.len(),
            first_index(s@.skip(from as int), c) == (i - from) + first_index(
                s@.skip(i as int),
                c,
            ),
        decreases s@.len() - i,
    {
        assert(s@.skip(i as int).skip(1) == s@.skip(i + 1));
        i += 1;
    }
    i
}

/// What stands in `s` before the first `c`: all of it where there is none.
pub fn take_before(s: &str, c: char) -> (r: String)
    ensures
        r@ == before(s@, c),
{
    let chars = chars_of(s);
    let end: usize = seek(&chars, 0, c);
    assert(chars@.skip(0) == chars@);
    string_of(&chars, 0, end)
}

/// The two sides of the first `c` in `s`, where there is one.
pub fn split_once(s: &str, c: char) -> (r: Option<(String, String)>)
    ensures
        match r {
            Some((a, b)) => s@.contains(c) && a@ == before(s@, c) && b@ == behind(s@, c),
            None => !s@.contains(c),
        },
{
    let chars = chars_of(s);
    let at: usize = seek(&chars, 0, c);
    assert(chars@.skip(0) == chars@);
    proof {
        lemma_first_index(s@, c);
    }
    if at < chars.len() {
        let a = string_of(&chars, 0, at);
        let b = string_of(&chars, at + 1, chars.len());
        Some((a, b))
    } else {
        None
    }
}

/// The pieces of `s` between the places where `c` stands.
pub fn split(s: &str, c: char) -> (r: Vec<String>)
    ensures
        texts(r@) == split_on(s@, c),
{
    let chars = chars_of(s);
    let mut out: Vec<String> = Vec::new();
    let mut from: usize = 0;
    assert(chars@.skip(0) == chars@);
    loop
        invariant_except_break
            from <= chars@.len(),
            texts(out@) + split_on(chars@.skip(from as int), c) == split_on(chars@, c),
        ensures
            texts(out@) == split_on(chars@, c),
        decreases chars@.len() - from,
    {
        let ghost rest = chars@.skip(from as int);
        let ghost done = texts(out@);
        proof {
            lemma_first_index(rest, c);
        }
        let at: usize = seek(&chars, from, c);
        out.push(string_of(&chars, from, at));
        assert(chars@.subrange(from as int, at as int) == before(rest, c));
        assert(texts(out@) == done.push(before(rest, c)));
        if at >= chars.len() {
            assert(before(rest, c) == rest);
            assert(split_on(rest, c) == seq![rest]);
            break;
        }
        assert(behind(rest, c) == chars@.skip(at + 1));
        assert(texts(out@) + split_on(chars@.skip(at + 1), c) == done + split_on(rest, c));
        from = at + 1;
    }
    out
}

/// The first `n` items of `s`, or all of them where there are fewer.
pub open spec fn head<A>(s: Seq<A>, n: int) -> Seq<A> {
    if s.len() <= n {
        s
    } else {
        s.take(n)
    }
}

/// The first `n` characters of `s`, or all of them where there are fewer.
pub fn take_head(s: &str, n: usize) -> (r: String)
    ensures
        r@ == head(s@, n as int),
{
    let chars = chars_of(s);
    if chars.len() <= n {
        assert(chars@.subrange(0, chars@.len() as int) == chars@);
        string_of(&chars, 0, chars.len())
    } else {
        string_of(&chars, 0, n)
    }
}

// ---------------------------------------------------------- writing numbers

/// The decimal digit for `d`.
pub open spec fn digit(d: int) -> char {
    (48 + d) as char
}

/// The decimal digits of `n`, without leading zeros.
pub open spec fn digits(n: nat) -> Seq<char>
    decreases n,
{
    if n < 10 {
        seq![digit(n as int)]
    } else {
        digits(n / 10).push(digit((n % 10) as int))
    }
}

/// `n` in decimal, with a minus sign where it is negative.
pub open spec fn decimal(n: int) -> Seq<char> {
    if n < 0 {
        seq!['-'] + digits((-n) as nat)
    } else {
        digits(n as nat)
    }
}

fn write_digits(n: u128) -> (r: String)
    ensures
        r@ == digits(n as nat),
    decreases n,
{
    if n < 10 {
        let mut out: String = String::new();
        out.push((48 + n as u8) as char);
        assert(out@ == digits(n as nat));
        out
    } else {
        let mut out = write_digits(n / 10);
        let last: u8 = (n % 10) as u8;
        out.push((48 + last) as char);
        out
    }
}

/// `n` in decimal.
pub fn write_decimal(n: i128) -> (r: String)
    requires
        n > i128::MIN,
    ensures
        r@ == decimal(n as int),
{
    if n < 0 {
        let mut out: String = String::new();
        out.push('-');
        let rest = write_digits((-n) as u128);
        out.append(rest.as_str());
        assert(out@ == decimal(n as int));
        out
    } else {
        write_digits(n as u128)
    }
}

/// The hexadecimal digit for `d`.
pub open spec fn hex_digit(d: int, upper: bool) -> char {
    if d < 10 {
        digit(d)
    } else if upper {
        (55 + d) as char
    } else {
        (87 + d) as char
    }
}

/// The last `width` hexadecimal digits of `n`, with leading zeros.
pub open spec fn hex(n: nat, width: nat, upper: bool) -> Seq<char>
    decreases width,
{
    if width == 0 {
        Seq::empty()
    } else {
        hex(n / 16, (width - 1) as nat, upper).push(hex_digit((n % 16) as int, upper))
    }
}

/// The last `width` hexadecimal digits of `n`, with leading zeros.
pub fn write_hex(n: u64, width: u8, upper: bool) -> (r: String)
    ensures
        r@ == hex(n as nat, width as nat, upper),
    decreases width,
{
    if width == 0 {
        String::new()
    } else {
        let mut out = write_hex(n / 16, width - 1, upper);
        let d: u8 = (n % 16) as u8;
        let c: u8 = if d < 10 {
            48 + d
        } else if upper {
            55 + d
        } else {
            87 + d
        };
        out.push(c as char);
        out
    }
}

// ------------------------------------------------------------------------- laws

/// Whether a result is what the first of some sources gives that gives
/// anything: nothing just where none of them does.
pub open spec fn first_to_tell(
    sources: Seq<Option<Seq<char>>>,
    result: Option<Seq<char>>,
) -> bool {
    &&& forall|k: int|
        0 <= k < sources.len() && (#[trigger] sources[k]) is Some && (forall|j: int|
            0 <= j < k ==> (#[trigger] sources[j]) is None) ==> result == sources[k]
    &&& (forall|k: int| 0 <= k < sources.len() ==> (#[trigger] sources[k]) is None)
        ==> result is None
}

/// Of two texts the first is taken where it is there, and else the second.
pub proof fn first_text_goes_before_the_second(a: Seq<char>, b: Option<Seq<char>>)
    ensures
        either(Some(a), b) == Some(a),
        either(None, b) == b,
{
}

/// A trim leaves a stretch of the text, whose ends are returned: all that goes
/// is to be taken off, and what is left neither starts nor ends with such a
/// character.
pub proof fn trim_takes_off_the_edges(s: Seq<char>, e: Edge) -> (r: (int, int))
    ensures
        0 <= r.0 <= r.1 <= s.len(),
        trimmed(s, e) == s.subrange(r.0, r.1),
        forall|i: int| 0 <= i < r.0 || r.1 <= i < s.len() ==> e.takes(#[trigger] s[i]),
        r.0 < r.1 ==> !e.takes(s[r.0]) && !e.takes(s[r.1 - 1]),
{
    let f = trim_front(s, e);
    let from = s.len() - f.len();
    lemma_trim_front_stops(s, e);
    lemma_front_gone(s, e);
    lemma_trim_back_stops(f, e);
    lemma_back_gone(f, e);
    let t = trimmed(s, e);
    let to = from + t.len();
    assert(t =~= s.subrange(from, to));
    assert forall|i: int| 0 <= i < from || to <= i < s.len() implies e.takes(#[trigger] s[i]) by {
        if i >= to {
            assert(f[i - from] == s[i]);
        }
    }
    if from < to {
        assert(t[0] == s[from]);
        assert(t.last() == s[to - 1]);
        assert(t[0] == f[0]);
    }
    (from, to)
}

proof fn lemma_front_gone(s: Seq<char>, e: Edge)
    ensures
        trim_front(s, e).len() <= s.len(),
        forall|i: int| 0 <= i < s.len() - trim_front(s, e).len() ==> e.takes(#[trigger] s[i]),
    decreases s.len(),
{
    if s.len() > 0 && e.takes(s[0]) {
        let t = s.skip(1);
        lemma_front_gone(t, e);
        assert forall|i: int| 0 <= i < s.len() - trim_front(s, e).len() implies e.takes(
            #[trigger] s[i],
        ) by {
            if i > 0 {
                assert(t[i - 1] == s[i]);
            }
        }
    }
}

proof fn lemma_back_gone(s: Seq<char>, e: Edge)
    ensures
        trim_back(s, e).len() <= s.len(),
        forall|i: int| trim_back(s, e).len() <= i < s.len() ==> e.takes(#[trigger] s[i]),
    decreases s.len(),
{
    if s.len() > 0 && e.takes(s.last()) {
        let t = s.drop_last();
        lemma_back_gone(t, e);
        assert forall|i: int| trim_back(s, e).len() <= i < s.len() implies e.takes(
            #[trigger] s[i],
        ) by {
            if i < t.len() {
                assert(t[i] == s[i]);
            }
        }
    }
}

/// A trim at the back alone leaves the front of the text, and takes off nothing
/// but what it is to take off.
pub proof fn trim_at_the_back_leaves_the_front(s: Seq<char>, e: Edge)
    ensures
        trim_back(s, e).is_prefix_of(s),
        forall|i: int| trim_back(s, e).len() <= i < s.len() ==> e.takes(#[trigger] s[i]),
        trim_back(s, e).len() > 0 ==> !e.takes(trim_back(s, e).last()),
{
    lemma_trim_back_stops(s, e);
    lemma_back_gone(s, e);
}

/// The blanks, tabs and line ends of a text are white space, and so is the wide
/// blank; nothing that can be seen in ASCII is. The other trims take just the
/// characters that they are named after.
pub proof fn edges_take_what_they_are_named_after(c: char)
    ensures
        c == ' ' || c == '\t' || c == '\n' || c == '\r' || c == '\u{3000}' ==> Edge::Space.takes(c),
        '!' <= c <= '~' ==> !Edge::Space.takes(c),
        '\u{4e00}' <= c <= '\u{9fff}' ==> !Edge::Space.takes(c),
        Edge::Slash.takes(c) <==> c == '/',
        Edge::Quote.takes(c) <==> (c == '"' || c == '\''),
        Edge::ShellQuote.takes(c) <==> (Edge::Quote.takes(c) || c == '`' || c == '\\'),
{
}

/// The head of a text is its front, as long as it may be, or all of it.
pub proof fn head_is_the_front(s: Seq<char>, n: int)
    requires
        0 <= n,
    ensures
        head(s, n).is_prefix_of(s),
        head(s, n).len() <= n,
        head(s, n).len() < n ==> head(s, n) == s,
{
}

/// A text that is put together of others begins with the first, ends with the
/// last, and holds the one in the middle.
pub proof fn parts_of_a_text_are_found(a: Seq<char>, b: Seq<char>, c: Seq<char>)
    ensures
        begins_with(a + b, a),
        ends_with(a + b, b),
        contains_text(a + b + c, b),
{
    assert((a + b).subrange(0, a.len() as int) =~= a);
    assert((a + b).subrange(a.len() as int, (a + b).len() as int) =~= b);
    assert((a + b + c).subrange(a.len() as int, (a.len() + b.len()) as int) =~= b);
    assert(occurs_at(a + b + c, b, a.len() as int));
}

/// A text that holds another is put together of what stands before it, of that
/// text, and of what stands behind it; one that begins with it has nothing
/// before it, and one that ends with it nothing behind it.
pub proof fn found_text_is_a_part(s: Seq<char>, part: Seq<char>)
    ensures
        contains_text(s, part) ==> exists|a: Seq<char>, c: Seq<char>| s == #[trigger] (a + part + c),
        begins_with(s, part) ==> s == part + s.skip(part.len() as int),
        ends_with(s, part) ==> s == s.take(s.len() - part.len()) + part,
{
    if contains_text(s, part) {
        let i = choose|i: int| occurs_at(s, part, i);
        let a = s.take(i);
        let c = s.skip((i + part.len()) as int);
        assert(s =~= a + s.subrange(i, i + part.len()) + c);
    }
    if begins_with(s, part) {
        assert(s =~= s.subrange(0, part.len() as int) + s.skip(part.len() as int));
    }
    if ends_with(s, part) {
        let n = s.len() - part.len();
        assert(s =~= s.take(n) + s.subrange(n, n + part.len()));
    }
}

/// Where a character stands in a text, the text is what stands before its first
/// place, the character, and what stands behind; else all of it stands before.
pub proof fn text_is_parted_at_the_first_place(s: Seq<char>, c: char)
    ensures
        !before(s, c).contains(c),
        s.contains(c) ==> s == before(s, c).push(c) + behind(s, c),
        !s.contains(c) ==> before(s, c) == s,
{
    lemma_first_index(s, c);
    let front = before(s, c);
    if front.contains(c) {
        let k = front.index_of(c);
        assert(s[k] == c);
    }
    if s.contains(c) {
        assert(s =~= front.push(c) + behind(s, c));
    } else {
        assert(front =~= s);
    }
}

/// The pieces with the character between them.
pub open spec fn pieces_joined(pieces: Seq<Seq<char>>, c: char) -> Seq<char>
    decreases pieces.len(),
{
    if pieces.len() == 0 {
        Seq::empty()
    } else if pieces.len() == 1 {
        pieces[0]
    } else {
        pieces[0].push(c) + pieces_joined(pieces.skip(1), c)
    }
}

/// A text that is split is put together again of its pieces, none of which holds
/// the character that it is split on.
pub proof fn pieces_make_up_the_text(s: Seq<char>, c: char)
    ensures
        split_on(s, c).len() > 0,
        pieces_joined(split_on(s, c), c) == s,
        forall|i: int| 0 <= i < split_on(s, c).len() ==> !(#[trigger] split_on(s, c)[i]).contains(c),
    decreases s.len(),
{
    lemma_first_index(s, c);
    text_is_parted_at_the_first_place(s, c);
    if s.contains(c) {
        let rest = behind(s, c);
        pieces_make_up_the_text(rest, c);
        let pieces = split_on(s, c);
        assert(pieces == seq![before(s, c)] + split_on(rest, c));
        assert(pieces.skip(1) =~= split_on(rest, c));
        assert(pieces[0] == before(s, c));
        assert forall|i: int| 0 <= i < pieces.len() implies !(#[trigger] pieces[i]).contains(c) by {
            if i > 0 {
                assert(pieces[i] == split_on(rest, c)[i - 1]);
            }
        }
    } else {
        assert(split_on(s, c) == seq![s]);
    }
}

/// Letters differ in ASCII lower case just where they are different letters:
/// the capitals become the small letters in their order, and nothing else
/// changes.
pub proof fn capitals_become_small_letters(c: char, k: int)
    requires
        0 <= k < 26,
    ensures
        c as int == 65 + k ==> ascii_lower(c) as int == 97 + k,
        !('A' <= c <= 'Z') ==> ascii_lower(c) == c,
{
}

/// The number that hexadecimal digits stand for, in either case.
pub open spec fn hex_number(s: Seq<char>) -> nat
    decreases s.len(),
{
    if s.len() == 0 {
        0
    } else {
        let c = s.last();
        let d: nat = if c <= '9' {
            (c as int - 48) as nat
        } else if c <= 'F' {
            (c as int - 55) as nat
        } else {
            (c as int - 87) as nat
        };
        hex_number(s.drop_last()) * 16 + d
    }
}

/// A number that fits is read back from its hexadecimal digits, of which there
/// are as many as asked for.
pub proof fn hexadecimal_digits_read_back(n: nat, width: nat, upper: bool)
    requires
        n < vstd::arithmetic::power::pow(16, width),
    ensures
        hex(n, width, upper).len() == width,
        hex_number(hex(n, width, upper)) == n,
    decreases width,
{
    reveal(vstd::arithmetic::power::pow);
    if width > 0 {
        let w = (width - 1) as nat;
        assert(n / 16 < vstd::arithmetic::power::pow(16, w)) by (nonlinear_arith)
            requires
                n < 16 * vstd::arithmetic::power::pow(16, w),
        ;
        hexadecimal_digits_read_back(n / 16, w, upper);
        let s = hex(n, width, upper);
        assert(s.drop_last() =~= hex(n / 16, w, upper));
    }
}

/// A text stands for its characters, one that is not there for nothing, and a
/// list of texts for the characters of each in its place.
pub proof fn texts_stand_for_their_characters(s: String, part: &str, list: Seq<String>, i: int)
    ensures
        opt_text(Some(s)) == Some(s@) && opt_text(None) is None,
        opt_str(Some(part)) == Some(part@) && opt_str(None) is None,
        texts(list).len() == list.len(),
        0 <= i < list.len() ==> texts(list)[i] == list[i]@,
{
}

} // verus!
