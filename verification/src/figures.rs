//! Numbers that documents hold, as text, and what the texts read as.
//!
//! A document may hold any decimal number, and some services write numbers as
//! strings. The library passes such numbers on as the texts they stand in, and
//! is told what they read as by a table.
use crate::json::{Json, JsonTree};
use crate::table::Table;
use crate::text::chars_of;
use vstd::prelude::*;

verus! {

broadcast use {crate::json::lemma_array, crate::json::lemma_object};

/// What the text of a number reads as. A whole number that does not fit its
/// field is the one nearest to it that does; what is no number at all counts
/// as 0.
#[derive(Clone, Copy, Debug, PartialEq, Eq, Structural)]
pub struct Reading {
    /// The nearest whole number, halves away from zero.
    pub rounded: i32,
    /// The number without its fraction.
    pub whole: i64,
    /// The least whole number that is not below.
    pub ceiling: i32,
    /// The greatest whole number that is not above what the number, held
    /// between 0 and 100, leaves of 100.
    pub left_of_hundred: i32,
    /// Whether it is a number, and not infinite.
    pub finite: bool,
    /// Whether it is above 0.
    pub positive: bool,
}

/// What the texts of numbers read as. A text that is not there is not the text
/// of a number.
pub type Readings = Table<Reading>;

/// The text of a number: that of a number in the document, or a string.
pub open spec fn figure(v: JsonTree) -> Option<Seq<char>> {
    match v.number() {
        Some(t) => Some(t),
        None => v.text(),
    }
}

/// What a value of a document reads as, where it is a number or the text of
/// one.
pub open spec fn reading(v: Option<JsonTree>, readings: Map<Seq<char>, Reading>) -> Option<
    Reading,
> {
    match v {
        Some(j) => match figure(j) {
            Some(t) => if readings.contains_key(t) {
                Some(readings[t])
            } else {
                None
            },
            None => None,
        },
        None => None,
    }
}

/// The text of a number under a name, where it reads as one.
pub open spec fn read_figure(v: Option<JsonTree>, readings: Map<Seq<char>, Reading>) -> Option<
    Seq<char>,
> {
    match reading(v, readings) {
        Some(_) => figure(v->Some_0),
        None => None,
    }
}

/// The text of a number: that of a number in the document, or a string.
pub fn figure_text(v: &Json) -> (r: Option<String>)
    ensures
        crate::text::opt_text(r) == figure(v@),
{
    match v.number_text() {
        Some(t) => Some(t),
        None => match v.as_str() {
            Some(s) => Some(s.to_owned()),
            None => None,
        },
    }
}

/// What a value of a document reads as.
pub fn parse_number(v: Option<&Json>, readings: &Readings) -> (r: Option<Reading>)
    requires
        readings.wf(),
    ensures
        r == reading(crate::json::opt_tree(v), readings@),
{
    match v {
        Some(j) => match figure_text(j) {
            Some(t) => match readings.get(t.as_str()) {
                Some(x) => Some(*x),
                None => None,
            },
            None => None,
        },
        None => None,
    }
}

/// The text of a number, where it reads as one.
pub fn number_figure(v: Option<&Json>, readings: &Readings) -> (r: Option<String>)
    requires
        readings.wf(),
    ensures
        crate::text::opt_text(r) == read_figure(crate::json::opt_tree(v), readings@),
{
    match v {
        Some(j) => match figure_text(j) {
            Some(t) => if readings.contains_key(t.as_str()) {
                Some(t)
            } else {
                None
            },
            None => None,
        },
        None => None,
    }
}

// --------------------------------------------------------- texts of a document

/// All texts of a document that may be numbers, in its order.
pub open spec fn figures(v: JsonTree) -> Seq<Seq<char>>
    decreases v, 0nat,
{
    match v {
        JsonTree::Array(items) => figures_of_items(items, items.len()),
        JsonTree::Object(pairs) => figures_of_members(pairs, pairs.len()),
        _ => match figure(v) {
            Some(t) => seq![t],
            None => Seq::empty(),
        },
    }
}

/// Those of the first `n` items of an array.
pub open spec fn figures_of_items(items: Seq<JsonTree>, n: nat) -> Seq<Seq<char>>
    decreases items, n,
{
    if n == 0 || n > items.len() {
        Seq::empty()
    } else {
        figures_of_items(items, (n - 1) as nat) + figures(items[n - 1])
    }
}

/// Those of the first `n` members of an object.
pub open spec fn figures_of_members(pairs: Seq<(Seq<char>, JsonTree)>, n: nat) -> Seq<Seq<char>>
    decreases pairs, n,
{
    if n == 0 || n > pairs.len() {
        Seq::empty()
    } else {
        proof {
            assert(decreases_to!(pairs => pairs[n - 1]));
            assert(decreases_to!(pairs[n - 1] => pairs[n - 1].1));
        }
        figures_of_members(pairs, (n - 1) as nat) + figures(pairs[n - 1].1)
    }
}

fn add_figures(v: &Json, out: &mut Vec<String>)
    ensures
        crate::text::texts(final(out)@) == crate::text::texts(old(out)@) + figures(v@),
    decreases v,
{
    let ghost before = crate::text::texts(out@);
    match v {
        Json::Array(items) => {
            let ghost all = crate::json::trees(items@);
            assert(v@ == JsonTree::Array(all));
            for i in 0..items.len()
                invariant
                    v is Array,
                    *items == v->Array_0,
                    all == crate::json::trees(items@),
                    crate::text::texts(out@) == before + figures_of_items(all, i as nat),
            {
                assert(decreases_to!(*v => v->Array_0));
                assert(decreases_to!(*items => items@));
                assert(decreases_to!(items@ => items@[i as int]));
                add_figures(&items[i], out);
                assert(crate::text::texts(out@) =~= before + figures_of_items(
                    all,
                    (i + 1) as nat,
                ));
            }
        },
        Json::Object(pairs) => {
            let ghost all = crate::json::members(pairs@);
            assert(v@ == JsonTree::Object(all));
            for i in 0..pairs.len()
                invariant
                    v is Object,
                    *pairs == v->Object_0,
                    all == crate::json::members(pairs@),
                    crate::text::texts(out@) == before + figures_of_members(all, i as nat),
            {
                assert(decreases_to!(*v => v->Object_0));
                assert(decreases_to!(*pairs => pairs@));
                assert(decreases_to!(pairs@ => pairs@[i as int]));
                assert(decreases_to!(pairs@[i as int] => pairs@[i as int].1));
                assert(all[i as int].1 == pairs@[i as int].1@);
                add_figures(&pairs[i].1, out);
                assert(crate::text::texts(out@) =~= before + figures_of_members(
                    all,
                    (i + 1) as nat,
                ));
            }
        },
        _ => {
            match figure_text(v) {
                Some(t) => {
                    out.push(t);
                    assert(crate::text::texts(out@) =~= before + seq![t@]);
                },
                None => {
                    assert(crate::text::texts(out@) =~= before + Seq::<Seq<char>>::empty());
                },
            }
        },
    }
}

/// All texts of a document that may be numbers, for which readings are asked.
pub fn numeric_texts(v: &Json) -> (r: Vec<String>)
    ensures
        crate::text::texts(r@) == figures(v@),
{
    let mut out: Vec<String> = Vec::new();
    add_figures(v, &mut out);
    assert(crate::text::texts(out@) =~= figures(v@));
    out
}

// --------------------------------------------------------------- whole numbers

/// The number that digits stand for.
pub open spec fn digits_value(s: Seq<char>) -> int
    decreases s.len(),
{
    if s.len() == 0 {
        0
    } else {
        digits_value(s.drop_last()) * 10 + (s.last() as int - 48)
    }
}

pub open spec fn all_digits(s: Seq<char>) -> bool {
    forall|i: int| 0 <= i < s.len() ==> '0' <= (#[trigger] s[i]) <= '9'
}

/// The whole number that a text stands for: digits, behind a sign or none.
pub open spec fn whole_number(s: Seq<char>) -> Option<int> {
    let signed = s.len() > 0 && (s[0] == '+' || s[0] == '-');
    let body = if signed {
        s.skip(1)
    } else {
        s
    };
    if body.len() == 0 || !all_digits(body) {
        None
    } else if signed && s[0] == '-' {
        Some(-digits_value(body))
    } else {
        Some(digits_value(body))
    }
}

/// The whole number that a text stands for, where it fits in 64 bits.
pub open spec fn small_whole_number(s: Seq<char>) -> Option<int> {
    match whole_number(s) {
        Some(n) => if i64::MIN <= n <= i64::MAX {
            Some(n)
        } else {
            None
        },
        None => None,
    }
}

proof fn lemma_digits_grow(s: Seq<char>, n: int)
    requires
        all_digits(s),
        0 <= n <= s.len(),
    ensures
        0 <= digits_value(s.take(n)) <= digits_value(s),
    decreases s.len(),
{
    if s.len() == 0 {
        assert(s.take(n) =~= s);
    } else if n == s.len() {
        assert(s.take(n) =~= s);
        assert(all_digits(s.drop_last()));
        lemma_digits_grow(s.drop_last(), 0);
        assert(s.drop_last().take(0) =~= Seq::<char>::empty());
    } else {
        assert(all_digits(s.drop_last()));
        lemma_digits_grow(s.drop_last(), n);
        assert(s.drop_last().take(n) =~= s.take(n));
    }
}

/// Reads a whole number of 64 bits.
pub fn parse_whole(s: &str) -> (r: Option<i64>)
    ensures
        match r {
            Some(n) => small_whole_number(s@) == Some(n as int),
            None => small_whole_number(s@) is None,
        },
{
    let chars = chars_of(s);
    let signed = chars.len() > 0 && (chars[0] == '+' || chars[0] == '-');
    let negative = signed && chars[0] == '-';
    let start: usize = if signed {
        1
    } else {
        0
    };
    if chars.len() == start {
        return None;
    }
    let ghost body = if signed {
        s@.skip(1)
    } else {
        s@
    };
    let mut i: usize = start;
    while i < chars.len()
        invariant
            chars@ == s@,
            start <= i <= chars@.len(),
            start <= 1,
            body == s@.skip(start as int),
            forall|k: int| 0 <= k < i - start ==> '0' <= (#[trigger] body[k]) <= '9',
            body.len() > 0,
            whole_number(s@) is Some ==> all_digits(body),
        decreases chars@.len() - i,
    {
        assert(body[i - start] == chars@[i as int]);
        if !('0' <= chars[i] && chars[i] <= '9') {
            return None;
        }
        i += 1;
    }
    assert(all_digits(body));
    let mut total: i128 = 0;
    let mut i: usize = start;
    assert(body.take(0) =~= Seq::<char>::empty());
    while i < chars.len()
        invariant
            chars@ == s@,
            start <= i <= chars@.len(),
            start <= 1,
            body == s@.skip(start as int),
            all_digits(body),
            total == digits_value(body.take(i - start)),
            0 <= total <= 9_223_372_036_854_775_808,
            whole_number(s@) == Some(
                if negative {
                    -digits_value(body)
                } else {
                    digits_value(body)
                },
            ),
        decreases chars@.len() - i,
    {
        assert(body[i - start] == chars@[i as int]);
        assert(body.take(i + 1 - start).drop_last() =~= body.take(i - start));
        total = total * 10 + (chars[i] as i128 - 48);
        proof {
            lemma_digits_grow(body, i + 1 - start);
        }
        if total > 9_223_372_036_854_775_808 {
            return None;
        }
        i += 1;
    }
    assert(body.take(body.len() as int) =~= body);
    if negative {
        Some((0 - total) as i64)
    } else if total <= 9_223_372_036_854_775_807 {
        Some(total as i64)
    } else {
        None
    }
}

// ------------------------------------------------------------------------- laws

proof fn lemma_digits_read_back(n: nat)
    ensures
        crate::text::digits(n).len() > 0,
        all_digits(crate::text::digits(n)),
        digits_value(crate::text::digits(n)) == n,
    decreases n,
{
    let s = crate::text::digits(n);
    if n < 10 {
        assert(s.drop_last() =~= Seq::<char>::empty());
        assert(digits_value(s.drop_last()) == 0);
        assert(s.last() == crate::text::digit(n as int));
    } else {
        lemma_digits_read_back(n / 10);
        let front = crate::text::digits(n / 10);
        assert(s.drop_last() =~= front);
        assert forall|i: int| 0 <= i < s.len() implies '0' <= (#[trigger] s[i]) <= '9' by {
            if i < front.len() {
                assert(s[i] == front[i]);
            }
        }
    }
}

/// A whole number that is written in decimal is read back, and one that does not
/// fit in 64 bits is not read.
pub proof fn written_numbers_are_read_back(n: int)
    ensures
        whole_number(crate::text::decimal(n)) == Some(n),
        i64::MIN <= n <= i64::MAX ==> small_whole_number(crate::text::decimal(n)) == Some(n),
        n < i64::MIN || n > i64::MAX ==> small_whole_number(crate::text::decimal(n)) is None,
{
    let s = crate::text::decimal(n);
    if n < 0 {
        lemma_digits_read_back((-n) as nat);
        assert(s.skip(1) =~= crate::text::digits((-n) as nat));
    } else {
        lemma_digits_read_back(n as nat);
        assert('0' <= s[0] <= '9');
    }
}

/// A number in a document reads as its text does, and so does a text; nothing
/// else reads as a number, nor does what is not there.
pub proof fn numbers_read_as_their_texts(
    n: int,
    text: Seq<char>,
    other: JsonTree,
    readings: Map<Seq<char>, Reading>,
)
    ensures
        readings.contains_key(crate::text::decimal(n)) ==> reading(
            Some(JsonTree::Int(n)),
            readings,
        ) == Some(readings[crate::text::decimal(n)]),
        readings.contains_key(text) ==> reading(Some(JsonTree::Decimal(text)), readings) == Some(
            readings[text],
        ) && reading(Some(JsonTree::Text(text)), readings) == Some(readings[text])
            && read_figure(Some(JsonTree::Decimal(text)), readings) == Some(text) && read_figure(
            Some(JsonTree::Text(text)),
            readings,
        ) == Some(text),
        readings.contains_key(crate::text::decimal(n)) ==> read_figure(
            Some(JsonTree::Int(n)),
            readings,
        ) == Some(crate::text::decimal(n)),
        !readings.contains_key(text) ==> reading(Some(JsonTree::Text(text)), readings) is None
            && read_figure(Some(JsonTree::Text(text)), readings) is None,
        other is Null || other is Bool || other is Array || other is Object ==> reading(
            Some(other),
            readings,
        ) is None && read_figure(Some(other), readings) is None,
        reading(None, readings) is None && read_figure(None, readings) is None,
{
}

/// Readings are asked for every number and text of a document: for those of each
/// item of an array, and of each member of an object.
pub proof fn every_number_is_asked_for(
    items: Seq<JsonTree>,
    pairs: Seq<(Seq<char>, JsonTree)>,
    i: int,
    text: Seq<char>,
)
    ensures
        figures(JsonTree::Text(text)) == seq![text],
        figures(JsonTree::Decimal(text)) == seq![text],
        figures(JsonTree::Int(i)) == seq![crate::text::decimal(i)],
        0 <= i < items.len() && figures(items[i]).contains(text) ==> figures(
            JsonTree::Array(items),
        ).contains(text),
        0 <= i < pairs.len() && figures(pairs[i].1).contains(text) ==> figures(
            JsonTree::Object(pairs),
        ).contains(text),
{
    let array = JsonTree::Array(items);
    assert(array->Array_0 == items);
    let object = JsonTree::Object(pairs);
    assert(object->Object_0 == pairs);
    if 0 <= i < items.len() && figures(items[i]).contains(text) {
        lemma_asked_in_items(items, items.len(), i, text);
    }
    if 0 <= i < pairs.len() && figures(pairs[i].1).contains(text) {
        lemma_asked_in_members(pairs, pairs.len(), i, text);
    }
}

proof fn lemma_in_one_of_both(front: Seq<Seq<char>>, back: Seq<Seq<char>>, text: Seq<char>)
    ensures
        front.contains(text) || back.contains(text) ==> (front + back).contains(text),
{
    let both = front + back;
    if front.contains(text) {
        let k = front.index_of(text);
        assert(both[k] == text);
    }
    if back.contains(text) {
        let k = back.index_of(text);
        assert(both[front.len() + k] == text);
    }
}

proof fn lemma_asked_in_items(items: Seq<JsonTree>, n: nat, i: int, text: Seq<char>)
    requires
        0 <= i < n <= items.len(),
        figures(items[i]).contains(text),
    ensures
        figures_of_items(items, n).contains(text),
    decreases n,
{
    if i < n - 1 {
        lemma_asked_in_items(items, (n - 1) as nat, i, text);
    }
    lemma_in_one_of_both(figures_of_items(items, (n - 1) as nat), figures(items[n - 1]), text);
}

proof fn lemma_asked_in_members(pairs: Seq<(Seq<char>, JsonTree)>, n: nat, i: int, text: Seq<char>)
    requires
        0 <= i < n <= pairs.len(),
        figures(pairs[i].1).contains(text),
    ensures
        figures_of_members(pairs, n).contains(text),
    decreases n,
{
    if i < n - 1 {
        lemma_asked_in_members(pairs, (n - 1) as nat, i, text);
    }
    lemma_in_one_of_both(figures_of_members(pairs, (n - 1) as nat), figures(pairs[n - 1].1), text);
}

} // verus!
