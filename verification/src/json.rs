//! JSON documents: what they say, how to read them and how to build them.
use crate::text::{chars_of, decimal, same_text, write_decimal};
use vstd::prelude::*;

verus! {

/// What a JSON document says.
pub enum JsonTree {
    Null,
    Bool(bool),
    /// A number that a 64-bit signed integer holds.
    Int(int),
    /// Any other number, as it is written.
    Decimal(Seq<char>),
    Text(Seq<char>),
    Array(Seq<JsonTree>),
    /// Members in the ascending order of their names.
    Object(Seq<(Seq<char>, JsonTree)>),
}

/// A JSON document.
#[derive(Debug, PartialEq)]
pub enum Json {
    Null,
    Bool(bool),
    /// A number that a 64-bit signed integer holds.
    Int(i64),
    /// Any other number, as it is written.
    Decimal(String),
    Text(String),
    Array(Vec<Json>),
    /// Members, looked up by name from the front.
    Object(Vec<(String, Json)>),
}

impl View for Json {
    type V = JsonTree;

    open spec fn view(&self) -> JsonTree
        decreases self,
    {
        match self {
            Json::Null => JsonTree::Null,
            Json::Bool(b) => JsonTree::Bool(*b),
            Json::Int(n) => JsonTree::Int(*n as int),
            Json::Decimal(s) => JsonTree::Decimal(s@),
            Json::Text(s) => JsonTree::Text(s@),
            Json::Array(v) => JsonTree::Array(
                Seq::new(
                    v@.len(),
                    |i: int|
                        if 0 <= i < v@.len() {
                            v@[i].view()
                        } else {
                            JsonTree::Null
                        },
                ),
            ),
            Json::Object(v) => JsonTree::Object(
                Seq::new(
                    v@.len(),
                    |i: int|
                        (
                            v@[i].0@,
                            if 0 <= i < v@.len() {
                                v@[i].1.view()
                            } else {
                                JsonTree::Null
                            },
                        ),
                ),
            ),
        }
    }
}

/// What each document of a list says.
pub open spec fn trees(v: Seq<Json>) -> Seq<JsonTree> {
    Seq::new(v.len(), |i: int| v[i]@)
}

/// What each member of an object says.
pub open spec fn members(v: Seq<(String, Json)>) -> Seq<(Seq<char>, JsonTree)> {
    Seq::new(v.len(), |i: int| (v[i].0@, v[i].1@))
}

/// What an array says is what its items say.
pub broadcast proof fn lemma_array(v: Vec<Json>)
    ensures
        #[trigger] Json::Array(v)@ == JsonTree::Array(trees(v@)),
{
    assert(Json::Array(v)@->Array_0 =~= trees(v@));
}

/// What an object says is what its members say.
pub broadcast proof fn lemma_object(v: Vec<(String, Json)>)
    ensures
        #[trigger] Json::Object(v)@ == JsonTree::Object(members(v@)),
{
    assert(Json::Object(v)@->Object_0 =~= members(v@));
}

// ------------------------------------------------------------------ looking

/// The first member with this name.
pub open spec fn member(pairs: Seq<(Seq<char>, JsonTree)>, name: Seq<char>) -> Option<JsonTree>
    decreases pairs.len(),
{
    if pairs.len() == 0 {
        None
    } else if pairs[0].0 == name {
        Some(pairs[0].1)
    } else {
        member(pairs.skip(1), name)
    }
}

impl JsonTree {
    /// The member of an object with this name.
    pub open spec fn get(self, name: Seq<char>) -> Option<JsonTree> {
        match self {
            JsonTree::Object(pairs) => member(pairs, name),
            _ => None,
        }
    }

    /// The characters of a text.
    pub open spec fn text(self) -> Option<Seq<char>> {
        match self {
            JsonTree::Text(s) => Some(s),
            _ => None,
        }
    }

    /// The value of a truth value.
    pub open spec fn flag(self) -> Option<bool> {
        match self {
            JsonTree::Bool(b) => Some(b),
            _ => None,
        }
    }

    /// The value of a number that a 64-bit signed integer holds.
    pub open spec fn whole(self) -> Option<int> {
        match self {
            JsonTree::Int(n) => Some(n),
            _ => None,
        }
    }

    /// The items of an array.
    pub open spec fn items(self) -> Option<Seq<JsonTree>> {
        match self {
            JsonTree::Array(v) => Some(v),
            _ => None,
        }
    }

    /// A number as it is written.
    pub open spec fn number(self) -> Option<Seq<char>> {
        match self {
            JsonTree::Int(n) => Some(decimal(n)),
            JsonTree::Decimal(s) => Some(s),
            _ => None,
        }
    }

    /// The characters of the text under this name.
    pub open spec fn text_at(self, name: Seq<char>) -> Option<Seq<char>> {
        match self.get(name) {
            Some(t) => t.text(),
            None => None,
        }
    }

    /// The truth value under this name.
    pub open spec fn flag_at(self, name: Seq<char>) -> Option<bool> {
        match self.get(name) {
            Some(t) => t.flag(),
            None => None,
        }
    }

    /// The integer under this name.
    pub open spec fn int_at(self, name: Seq<char>) -> Option<int> {
        match self.get(name) {
            Some(t) => t.whole(),
            None => None,
        }
    }

    /// The items of the array under this name.
    pub open spec fn items_at(self, name: Seq<char>) -> Option<Seq<JsonTree>> {
        match self.get(name) {
            Some(t) => t.items(),
            None => None,
        }
    }

    /// The number under this name, as it is written.
    pub open spec fn number_at(self, name: Seq<char>) -> Option<Seq<char>> {
        match self.get(name) {
            Some(t) => t.number(),
            None => None,
        }
    }

    /// What stands under `name` in what stands under `outer`.
    pub open spec fn get_in(self, outer: Seq<char>, name: Seq<char>) -> Option<JsonTree> {
        match self.get(outer) {
            Some(t) => t.get(name),
            None => None,
        }
    }
}

/// The document that a reference points to, if there is one.
pub open spec fn opt_tree(o: Option<&Json>) -> Option<JsonTree> {
    match o {
        Some(j) => Some(j@),
        None => None,
    }
}

impl Json {
    /// The member of an object with this name.
    pub fn get(&self, name: &str) -> (r: Option<&Json>)
        ensures
            opt_tree(r) == self@.get(name@),
            r matches Some(j) ==> decreases_to!(*self => *j),
    {
        match self {
            Json::Object(pairs) => {
                broadcast use lemma_object;

                let ghost all = members(pairs@);
                assert(all.skip(0) == all);
                for i in 0..pairs.len()
                    invariant
                        *self == Json::Object(*pairs),
                        all == members(pairs@),
                        self@ == JsonTree::Object(all),
                        member(all.skip(i as int), name@) == member(all, name@),
                {
                    if same_text(pairs[i].0.as_str(), name) {
                        assert(all.skip(i as int)[0] == all[i as int]);
                        return Some(&pairs[i].1);
                    }
                    assert(all.skip(i as int)[0] == all[i as int]);
                    assert(all.skip(i as int).skip(1) == all.skip(i + 1));
                }
                None
            },
            _ => None,
        }
    }

    /// The characters of a text.
    pub fn as_str(&self) -> (r: Option<&str>)
        ensures
            crate::text::opt_str(r) == self@.text(),
    {
        match self {
            Json::Text(s) => Some(s.as_str()),
            _ => None,
        }
    }

    /// The value of a truth value.
    pub fn as_bool(&self) -> (r: Option<bool>)
        ensures
            r == self@.flag(),
    {
        match self {
            Json::Bool(b) => Some(*b),
            _ => None,
        }
    }

    /// The value of a number that a 64-bit signed integer holds.
    pub fn as_i64(&self) -> (r: Option<i64>)
        ensures
            match r {
                Some(n) => self@.whole() == Some(n as int),
                None => self@.whole() is None,
            },
    {
        match self {
            Json::Int(n) => Some(*n),
            _ => None,
        }
    }

    /// The items of an array.
    pub fn as_array(&self) -> (r: Option<&Vec<Json>>)
        ensures
            match r {
                Some(v) => self@.items() == Some(trees(v@)) && *self == Json::Array(*v),
                None => self@.items() is None,
            },
    {
        broadcast use lemma_array;

        match self {
            Json::Array(v) => Some(v),
            _ => None,
        }
    }

    /// A number as it is written.
    pub fn number_text(&self) -> (r: Option<String>)
        ensures
            crate::text::opt_text(r) == self@.number(),
    {
        match self {
            Json::Int(n) => Some(write_decimal(*n as i128)),
            Json::Decimal(s) => Some(s.clone()),
            _ => None,
        }
    }

    /// Whether this is an object.
    pub fn is_object(&self) -> (r: bool)
        ensures
            r == (self@ is Object),
    {
        match self {
            Json::Object(_) => true,
            _ => false,
        }
    }

    /// The characters of the text under this name.
    pub fn text_under(&self, name: &str) -> (r: Option<String>)
        ensures
            crate::text::opt_text(r) == self@.text_at(name@),
    {
        match self.get(name) {
            Some(j) => match j.as_str() {
                Some(s) => Some(s.to_owned()),
                None => None,
            },
            None => None,
        }
    }

    /// The truth value under this name.
    pub fn flag_under(&self, name: &str) -> (r: Option<bool>)
        ensures
            r == self@.flag_at(name@),
    {
        match self.get(name) {
            Some(j) => j.as_bool(),
            None => None,
        }
    }

    /// The integer under this name.
    pub fn int_under(&self, name: &str) -> (r: Option<i64>)
        ensures
            match r {
                Some(n) => self@.int_at(name@) == Some(n as int),
                None => self@.int_at(name@) is None,
            },
    {
        match self.get(name) {
            Some(j) => j.as_i64(),
            None => None,
        }
    }

    /// The items of the array under this name.
    pub fn items_under(&self, name: &str) -> (r: Option<&Vec<Json>>)
        ensures
            match r {
                Some(v) => self@.items_at(name@) == Some(trees(v@)),
                None => self@.items_at(name@) is None,
            },
    {
        match self.get(name) {
            Some(j) => j.as_array(),
            None => None,
        }
    }

    /// The number under this name, as it is written.
    pub fn number_under(&self, name: &str) -> (r: Option<String>)
        ensures
            crate::text::opt_text(r) == self@.number_at(name@),
    {
        match self.get(name) {
            Some(j) => j.number_text(),
            None => None,
        }
    }

    /// What stands under `name` in what stands under `outer`.
    pub fn get_inner(&self, outer: &str, name: &str) -> (r: Option<&Json>)
        ensures
            opt_tree(r) == self@.get_in(outer@, name@),
    {
        match self.get(outer) {
            Some(j) => j.get(name),
            None => None,
        }
    }

    /// A document that says the same.
    pub fn copy(&self) -> (r: Json)
        ensures
            r@ == self@,
        decreases self,
    {
        broadcast use {lemma_array, lemma_object};

        match self {
            Json::Null => Json::Null,
            Json::Bool(b) => Json::Bool(*b),
            Json::Int(n) => Json::Int(*n),
            Json::Decimal(s) => Json::Decimal(s.clone()),
            Json::Text(s) => Json::Text(s.clone()),
            Json::Array(v) => {
                let mut out: Vec<Json> = Vec::new();
                for i in 0..v.len()
                    invariant
                        *self == Json::Array(*v),
                        out@.len() == i,
                        forall|j: int| 0 <= j < i ==> (#[trigger] out@[j])@ == v@[j]@,
                {
                    assert(decreases_to!(*self => self->Array_0));
                    assert(decreases_to!(*v => v@[i as int]));
                    let x = v[i].copy();
                    out.push(x);
                }
                assert(trees(out@) == trees(v@));
                Json::Array(out)
            },
            Json::Object(v) => {
                let mut out: Vec<(String, Json)> = Vec::new();
                for i in 0..v.len()
                    invariant
                        *self == Json::Object(*v),
                        out@.len() == i,
                        forall|j: int|
                            0 <= j < i ==> (#[trigger] out@[j]).0@ == v@[j].0@ && out@[j].1@
                                == v@[j].1@,
                {
                    assert(decreases_to!(*self => self->Object_0));
                    assert(decreases_to!(*v => v@[i as int]));
                    assert(decreases_to!(v@[i as int] => v@[i as int].1));
                    let x = v[i].1.copy();
                    out.push((v[i].0.clone(), x));
                }
                assert(members(out@) == members(v@));
                Json::Object(out)
            },
        }
    }
}

// ----------------------------------------------------------------- building

/// Whether `a` comes before `b` in the order of their characters.
pub open spec fn text_less(a: Seq<char>, b: Seq<char>) -> bool
    decreases a.len(),
{
    if b.len() == 0 {
        false
    } else if a.len() == 0 {
        true
    } else if a[0] == b[0] {
        text_less(a.skip(1), b.skip(1))
    } else {
        a[0] < b[0]
    }
}

/// Whether `a` comes before `b` in the order of their characters.
pub fn comes_before(a: &str, b: &str) -> (r: bool)
    ensures
        r == text_less(a@, b@),
{
    let left = chars_of(a);
    let right = chars_of(b);
    let mut i: usize = 0;
    assert(a@.skip(0) == a@ && b@.skip(0) == b@);
    while i < left.len() && i < right.len()
        invariant
            left@ == a@,
            right@ == b@,
            i <= a@.len(),
            i <= b@.len(),
            text_less(a@.skip(i as int), b@.skip(i as int)) == text_less(a@, b@),
        decreases a@.len() - i,
    {
        assert(a@.skip(i as int).skip(1) == a@.skip(i + 1));
        assert(b@.skip(i as int).skip(1) == b@.skip(i + 1));
        if left[i] != right[i] {
            return left[i] < right[i];
        }
        i += 1;
    }
    i < right.len()
}

/// `pairs` with `value` under `name`: in the place of what was there, or
/// before the first member whose name comes behind.
pub open spec fn with_member(
    pairs: Seq<(Seq<char>, JsonTree)>,
    name: Seq<char>,
    value: JsonTree,
) -> Seq<(Seq<char>, JsonTree)>
    decreases pairs.len(),
{
    if pairs.len() == 0 {
        seq![(name, value)]
    } else if pairs[0].0 == name {
        seq![(name, value)] + pairs.skip(1)
    } else if text_less(name, pairs[0].0) {
        seq![(name, value)] + pairs
    } else {
        seq![pairs[0]] + with_member(pairs.skip(1), name, value)
    }
}

/// A member that was put in is found, and the others are found as before.
pub proof fn member_put_in_is_found(
    pairs: Seq<(Seq<char>, JsonTree)>,
    name: Seq<char>,
    value: JsonTree,
    other: Seq<char>,
)
    ensures
        member(with_member(pairs, name, value), name) == Some(value),
        other != name ==> member(with_member(pairs, name, value), other) == member(pairs, other),
    decreases pairs.len(),
{
    let after = with_member(pairs, name, value);
    if pairs.len() == 0 {
        assert(member(after.skip(1), other) == None::<JsonTree>);
    } else if pairs[0].0 == name {
        assert(after.skip(1) == pairs.skip(1));
    } else if text_less(name, pairs[0].0) {
        assert(after.skip(1) == pairs);
    } else {
        member_put_in_is_found(pairs.skip(1), name, value, other);
        assert(after[0] == pairs[0]);
        assert(after.skip(1) == with_member(pairs.skip(1), name, value));
    }
}

/// Putting the same member in twice is putting it in once.
pub proof fn member_put_in_twice(
    pairs: Seq<(Seq<char>, JsonTree)>,
    name: Seq<char>,
    value: JsonTree,
)
    ensures
        with_member(with_member(pairs, name, value), name, value) == with_member(
            pairs,
            name,
            value,
        ),
    decreases pairs.len(),
{
    let after = with_member(pairs, name, value);
    if pairs.len() > 0 && pairs[0].0 != name && !text_less(name, pairs[0].0) {
        member_put_in_twice(pairs.skip(1), name, value);
        assert(after[0] == pairs[0]);
        assert(after.skip(1) =~= with_member(pairs.skip(1), name, value));
    } else {
        assert(after[0] == (name, value));
        assert(seq![(name, value)] + after.skip(1) =~= after);
    }
}

/// The order of texts is a strict one, and no two different texts are equal in
/// it.
pub proof fn order_of_texts_is_strict_and_total(a: Seq<char>, b: Seq<char>, c: Seq<char>)
    ensures
        !text_less(a, a),
        a != b ==> text_less(a, b) || text_less(b, a),
        text_less(a, b) && text_less(b, c) ==> text_less(a, c),
    decreases a.len(),
{
    if a.len() > 0 {
        order_of_texts_is_strict_and_total(a.skip(1), a.skip(1), a.skip(1));
    }
    if a.len() > 0 && b.len() > 0 && a[0] == b[0] {
        let d = if c.len() > 0 { c.skip(1) } else { c };
        order_of_texts_is_strict_and_total(a.skip(1), b.skip(1), d);
        if a.skip(1) == b.skip(1) {
            assert(a =~= seq![a[0]] + a.skip(1));
            assert(b =~= seq![b[0]] + b.skip(1));
        }
    } else if a.len() == 0 && b.len() == 0 {
        assert(a =~= b);
    }
}

/// What it takes for an object to be shaped.
pub proof fn lemma_shaped_object(pairs: Seq<(Seq<char>, JsonTree)>, depth: nat)
    ensures
        shaped(JsonTree::Object(pairs), depth) <==> {
            &&& depth > 0
            &&& forall|i: int|
                0 <= i < pairs.len() ==> shaped(#[trigger] pairs[i].1, (depth - 1) as nat)
            &&& forall|i: int, j: int|
                0 <= i < j < pairs.len() ==> text_less(#[trigger] pairs[i].0, #[trigger] pairs[j].0)
        },
{
    let tree = JsonTree::Object(pairs);
    assert(tree->Object_0 == pairs);
}

/// An object that is shaped stays so with one more member that is.
pub proof fn shaped_object_stays_shaped(
    pairs: Seq<(Seq<char>, JsonTree)>,
    name: Seq<char>,
    value: JsonTree,
    depth: nat,
)
    requires
        shaped(JsonTree::Object(pairs), depth),
        shaped(value, (depth - 1) as nat),
    ensures
        shaped(JsonTree::Object(with_member(pairs, name, value)), depth),
        forall|i: int|
            0 <= i < with_member(pairs, name, value).len() ==> {
                let it = #[trigger] with_member(pairs, name, value)[i];
                it == (name, value) || pairs.contains(it)
            },
    decreases pairs.len(),
{
    let after = with_member(pairs, name, value);
    lemma_shaped_object(pairs, depth);
    lemma_shaped_object(after, depth);
    if pairs.len() > 0 && pairs[0].0 != name {
        let rest = pairs.skip(1);
        lemma_shaped_object(rest, depth);
        assert(shaped(JsonTree::Object(rest), depth)) by {
            assert forall|i: int| 0 <= i < rest.len() implies shaped(
                #[trigger] rest[i].1,
                (depth - 1) as nat,
            ) by {
                assert(rest[i].1 == pairs[i + 1].1);
            }
        }
        if text_less(name, pairs[0].0) {
            assert(after == seq![(name, value)] + pairs);
            assert forall|i: int, j: int| 0 <= i < j < after.len() implies text_less(
                #[trigger] after[i].0,
                #[trigger] after[j].0,
            ) by {
                if i == 0 {
                    order_of_texts_is_strict_and_total(name, pairs[0].0, pairs[j - 1].0);
                }
            }
            assert forall|i: int| 0 <= i < after.len() implies {
                let it = #[trigger] after[i];
                (it == (name, value) || pairs.contains(it)) && shaped(it.1, (depth - 1) as nat)
            } by {
                if i > 0 {
                    assert(after[i] == pairs[i - 1]);
                }
            }
        } else {
            shaped_object_stays_shaped(rest, name, value, depth);
            let tail = with_member(rest, name, value);
            lemma_shaped_object(tail, depth);
            assert(after == seq![pairs[0]] + tail);
            order_of_texts_is_strict_and_total(pairs[0].0, name, name);
            assert forall|i: int| 0 <= i < after.len() implies {
                let it = #[trigger] after[i];
                &&& it == (name, value) || pairs.contains(it)
                &&& shaped(it.1, (depth - 1) as nat)
                &&& i > 0 ==> text_less(pairs[0].0, it.0)
            } by {
                if i > 0 {
                    assert(after[i] == tail[i - 1]);
                    if after[i] != (name, value) {
                        let k = choose|k: int| 0 <= k < rest.len() && rest[k] == after[i];
                        assert(pairs[k + 1] == after[i]);
                    }
                } else {
                    assert(after[0] == pairs[0]);
                }
            }
            assert forall|i: int, j: int| 0 <= i < j < after.len() implies text_less(
                #[trigger] after[i].0,
                #[trigger] after[j].0,
            ) by {
                if i > 0 {
                    assert(text_less(tail[i - 1].0, tail[j - 1].0));
                }
            }
        }
    } else if pairs.len() > 0 {
        assert(after == seq![(name, value)] + pairs.skip(1));
        assert forall|i: int| 0 <= i < after.len() implies {
            let it = #[trigger] after[i];
            (it == (name, value) || pairs.contains(it)) && shaped(it.1, (depth - 1) as nat)
        } by {
            if i > 0 {
                assert(after[i] == pairs[i]);
                assert(after[i].1 == pairs[i].1);
            }
        }
        assert forall|i: int, j: int| 0 <= i < j < after.len() implies text_less(
            #[trigger] after[i].0,
            #[trigger] after[j].0,
        ) by {
            assert(after[j].0 == pairs[j].0);
            assert(after[i].0 == pairs[i].0);
        }
    }
}

/// What it takes for an object to hold no numbers but integers.
pub proof fn lemma_integral_object(pairs: Seq<(Seq<char>, JsonTree)>)
    ensures
        integral(JsonTree::Object(pairs)) <==> forall|i: int|
            0 <= i < pairs.len() ==> integral((#[trigger] pairs[i]).1),
{
    let tree = JsonTree::Object(pairs);
    assert(tree->Object_0 == pairs);
}

/// An object without numbers but integers stays so with one more member that
/// holds no others.
pub proof fn integral_object_stays_integral(
    pairs: Seq<(Seq<char>, JsonTree)>,
    name: Seq<char>,
    value: JsonTree,
)
    requires
        integral(JsonTree::Object(pairs)),
        integral(value),
    ensures
        integral(JsonTree::Object(with_member(pairs, name, value))),
    decreases pairs.len(),
{
    let after = with_member(pairs, name, value);
    lemma_integral_object(pairs);
    lemma_integral_object(after);
    if pairs.len() > 0 {
        let rest = pairs.skip(1);
        lemma_integral_object(rest);
        assert forall|i: int| 0 <= i < rest.len() implies integral((#[trigger] rest[i]).1) by {
            assert(rest[i] == pairs[i + 1]);
        }
        integral_object_stays_integral(rest, name, value);
        let tail = with_member(rest, name, value);
        lemma_integral_object(tail);
        assert forall|i: int| 0 <= i < after.len() implies integral((#[trigger] after[i]).1) by {
            if i > 0 {
                if pairs[0].0 == name {
                    assert(after[i] == rest[i - 1]);
                } else if text_less(name, pairs[0].0) {
                    assert(after[i] == pairs[i - 1]);
                } else {
                    assert(after[i] == tail[i - 1]);
                }
            } else if pairs[0].0 != name && !text_less(name, pairs[0].0) {
                assert(after[0] == pairs[0]);
            }
        }
    }
}

/// Puts `value` under `name` into the members of an object.
pub fn put_member(pairs: &mut Vec<(String, Json)>, name: &str, value: Json)
    ensures
        members(final(pairs)@) == with_member(members(old(pairs)@), name@, value@),
{
    let ghost all = members(pairs@);
    let ghost v = value@;
    assert(all.skip(0) == all);
    assert(all.take(0) + with_member(all, name@, v) == with_member(all, name@, v));
    let count: usize = pairs.len();
    for i in 0..count
        invariant
            count == pairs@.len(),
            all == members(pairs@),
            v == value@,
            *pairs == *old(pairs),
            with_member(all, name@, v) == all.take(i as int) + with_member(
                all.skip(i as int),
                name@,
                v,
            ),
    {
        let ghost rest = all.skip(i as int);
        assert(rest[0] == all[i as int]);
        if same_text(pairs[i].0.as_str(), name) {
            pairs[i] = (name.to_owned(), value);
            assert(members(pairs@) =~= all.take(i as int) + (seq![(name@, v)] + rest.skip(1)));
            return ;
        }
        if comes_before(name, pairs[i].0.as_str()) {
            pairs.insert(i, (name.to_owned(), value));
            assert(members(pairs@) =~= all.take(i as int) + (seq![(name@, v)] + rest));
            return ;
        }
        assert(rest.skip(1) == all.skip(i + 1));
        assert(all.take(i as int) + (seq![rest[0]] + with_member(rest.skip(1), name@, v))
            =~= all.take(i + 1) + with_member(rest.skip(1), name@, v));
    }
    assert(all.skip(pairs@.len() as int).len() == 0);
    pairs.push((name.to_owned(), value));
    assert(members(pairs@) =~= all + seq![(name@, v)]);
    assert(all.take(all.len() as int) == all);
}

impl Clone for Json {
    fn clone(&self) -> (r: Self)
        ensures
            r@ == self@,
    {
        self.copy()
    }
}

// ------------------------------------------------------- the outside parser

/// A document of `serde_json`, which only the functions below look into.
#[verifier::external_type_specification]
#[verifier::external_body]
pub struct ExValue(serde_json::Value);

/// What a document of `serde_json` holds.
pub uninterp spec fn value_tree(v: serde_json::Value) -> JsonTree;

/// What `serde_json` reads in a text: a document, or the message of its error.
pub uninterp spec fn json_document(text: Seq<u8>) -> Result<JsonTree, Seq<char>>;

/// The compact text that `serde_json` writes for a document.
pub uninterp spec fn json_bytes(tree: JsonTree) -> Seq<u8>;

/// One level of a document of `serde_json`.
pub enum Level<'a> {
    Null,
    Bool(bool),
    Int(i64),
    Decimal(String),
    Text(&'a String),
    Array(&'a Vec<serde_json::Value>),
    Object(Vec<(&'a String, &'a serde_json::Value)>),
}

impl<'a> Level<'a> {
    /// What the document says, one level of it spelt out.
    pub open spec fn tree(self) -> JsonTree {
        match self {
            Level::Null => JsonTree::Null,
            Level::Bool(b) => JsonTree::Bool(b),
            Level::Int(n) => JsonTree::Int(n as int),
            Level::Decimal(s) => JsonTree::Decimal(s@),
            Level::Text(s) => JsonTree::Text(s@),
            Level::Array(v) => JsonTree::Array(Seq::new(v@.len(), |i: int| value_tree(v@[i]))),
            Level::Object(v) => JsonTree::Object(
                Seq::new(v@.len(), |i: int| (v@[i].0@, value_tree(*v@[i].1))),
            ),
        }
    }
}

/// Tells the variants of `serde_json::Value` apart. A number is an integer
/// where `Number::as_i64` gives one, and else the text that its `Display`
/// writes. The members of an object come in the order in which its map is
/// walked.
#[verifier::external_body]
fn open_value(v: &serde_json::Value) -> (r: Level<'_>)
    ensures
        r.tree() == value_tree(*v),
{
    match v {
        serde_json::Value::Null => Level::Null,
        serde_json::Value::Bool(b) => Level::Bool(*b),
        serde_json::Value::Number(n) => match n.as_i64() {
            Some(i) => Level::Int(i),
            None => Level::Decimal(n.to_string()),
        },
        serde_json::Value::String(s) => Level::Text(s),
        serde_json::Value::Array(a) => Level::Array(a),
        serde_json::Value::Object(m) => Level::Object(m.iter().collect()),
    }
}

/// Calls `serde_json::from_slice` for a `Value`. The result, its error message
/// too, is a function of the text alone. A document that is read has no more
/// levels than the parser follows, and keeps the members of an object in
/// ascending order, one for each name.
#[verifier::external_body]
pub(crate) fn parse_value(text: &[u8]) -> (r: Result<serde_json::Value, String>)
    ensures
        match r {
            Ok(v) => json_document(text@) == Ok::<JsonTree, Seq<char>>(value_tree(v)) && shaped(
                value_tree(v),
                MOST_LEVELS as nat,
            ),
            Err(m) => json_document(text@) == Err::<JsonTree, Seq<char>>(m@),
        },
{
    serde_json::from_slice(text).map_err(|e| e.to_string())
}

/// At most `depth` levels of arrays and objects, integers of 64 bits, and the
/// members of each object in strictly ascending order.
pub open spec fn shaped(tree: JsonTree, depth: nat) -> bool
    decreases depth,
{
    match tree {
        JsonTree::Int(n) => i64::MIN <= n <= i64::MAX,
        JsonTree::Array(v) => depth > 0 && forall|i: int|
            0 <= i < v.len() ==> #[trigger] shaped(v[i], (depth - 1) as nat),
        JsonTree::Object(v) => {
            &&& depth > 0
            &&& forall|i: int| 0 <= i < v.len() ==> shaped(#[trigger] v[i].1, (depth - 1) as nat)
            &&& forall|i: int, j: int|
                0 <= i < j < v.len() ==> text_less(#[trigger] v[i].0, #[trigger] v[j].0)
        },
        _ => true,
    }
}

/// Whether a text is that of an integer that only an unsigned one of 64 bits
/// holds.
pub open spec fn is_wide(s: Seq<char>) -> bool {
    exists|n: int| i64::MAX < n <= u64::MAX && s == #[trigger] decimal(n)
}

/// No numbers but integers of 64 bits, signed or unsigned.
pub open spec fn integral(tree: JsonTree) -> bool
    decreases tree,
{
    match tree {
        JsonTree::Decimal(s) => is_wide(s),
        JsonTree::Array(v) => forall|i: int| 0 <= i < v.len() ==> #[trigger] integral(v[i]),
        JsonTree::Object(v) => forall|i: int| 0 <= i < v.len() ==> integral((#[trigger] v[i]).1),
        _ => true,
    }
}

/// How many levels of arrays and objects `serde_json` reads.
pub const MOST_LEVELS: u8 = 127;

/// Whether `serde_json` reads `tree` in `text`.
pub open spec fn reads_as(text: Seq<u8>, tree: JsonTree) -> bool {
    json_document(text) == Ok::<JsonTree, Seq<char>>(tree)
}

/// Calls `serde_json::to_vec`, which writes a `Value` without fail. The text
/// is a function of the document alone. Where the document holds no numbers but
/// integers of 64 bits, and is no deeper than the parser follows, the parser
/// reads the document back from it.
#[verifier::external_body]
pub(crate) fn value_bytes(v: &serde_json::Value) -> (r: Option<Vec<u8>>)
    ensures
        r is Some,
        r->Some_0@ == json_bytes(value_tree(*v)),
        shaped(value_tree(*v), MOST_LEVELS as nat) && integral(value_tree(*v)) ==> reads_as(
            r->Some_0@,
            value_tree(*v),
        ),
{
    serde_json::to_vec(v).ok()
}

/// Makes the `Value` of a text.
#[verifier::external_body]
pub(crate) fn text_value(s: &str) -> (r: serde_json::Value)
    ensures
        value_tree(r) == JsonTree::Text(s@),
{
    serde_json::Value::from(s)
}

/// Makes the `Value` of an integer.
#[verifier::external_body]
pub(crate) fn int_value(n: i64) -> (r: serde_json::Value)
    ensures
        value_tree(r) == JsonTree::Int(n as int),
{
    serde_json::Value::from(n)
}

/// Makes the `Value` of a truth value.
#[verifier::external_body]
pub(crate) fn flag_value(b: bool) -> (r: serde_json::Value)
    ensures
        value_tree(r) == JsonTree::Bool(b),
{
    serde_json::Value::from(b)
}

/// Makes the `Value` that stands for nothing.
#[verifier::external_body]
pub(crate) fn null_value() -> (r: serde_json::Value)
    ensures
        value_tree(r) == JsonTree::Null,
{
    serde_json::Value::Null
}

/// Makes an object without members, with `serde_json::Map::new`.
#[verifier::external_body]
pub(crate) fn object_value() -> (r: serde_json::Value)
    ensures
        value_tree(r) == JsonTree::Object(Seq::empty()),
{
    serde_json::Value::Object(serde_json::Map::new())
}

/// Calls `serde_json::Map::insert` on an object. The map keeps its members in
/// ascending order, one for each name.
#[verifier::external_body]
pub(crate) fn insert_value(v: &mut serde_json::Value, name: &str, value: serde_json::Value)
    requires
        value_tree(*old(v)) is Object,
    ensures
        value_tree(*final(v)) == JsonTree::Object(
            with_member(value_tree(*old(v))->Object_0, name@, value_tree(value)),
        ),
{
    if let Some(members) = v.as_object_mut() {
        members.insert(name.to_string(), value);
    }
}

/// The document that a document of `serde_json` holds.
pub(crate) fn from_value(v: &serde_json::Value) -> (r: Json)
    ensures
        r@ == value_tree(*v),
    decreases value_tree(*v),
{
    broadcast use {lemma_array, lemma_object};

    let ghost t = value_tree(*v);
    match open_value(v) {
        Level::Null => Json::Null,
        Level::Bool(b) => Json::Bool(b),
        Level::Int(n) => Json::Int(n),
        Level::Decimal(s) => Json::Decimal(s),
        Level::Text(s) => Json::Text(s.clone()),
        Level::Array(items) => {
            let mut out: Vec<Json> = Vec::new();
            for i in 0..items.len()
                invariant
                    t == value_tree(*v),
                    t is Array,
                    t->Array_0.len() == items@.len(),
                    forall|j: int|
                        0 <= j < items@.len() ==> #[trigger] t->Array_0[j] == value_tree(items@[j]),
                    out@.len() == i,
                    forall|j: int| 0 <= j < i ==> (#[trigger] out@[j])@ == t->Array_0[j],
            {
                assert(decreases_to!(t => t->Array_0));
                assert(decreases_to!(t->Array_0 => t->Array_0[i as int]));
                out.push(from_value(&items[i]));
            }
            assert(trees(out@) =~= t->Array_0);
            Json::Array(out)
        },
        Level::Object(items) => {
            let mut out: Vec<(String, Json)> = Vec::new();
            for i in 0..items.len()
                invariant
                    t == value_tree(*v),
                    t is Object,
                    t->Object_0.len() == items@.len(),
                    forall|j: int|
                        0 <= j < items@.len() ==> #[trigger] t->Object_0[j] == (
                            items@[j].0@,
                            value_tree(*items@[j].1),
                        ),
                    out@.len() == i,
                    forall|j: int|
                        0 <= j < i ==> (#[trigger] out@[j]).0@ == t->Object_0[j].0 && out@[j].1@
                            == t->Object_0[j].1,
            {
                assert(decreases_to!(t => t->Object_0));
                assert(decreases_to!(t->Object_0 => t->Object_0[i as int]));
                assert(decreases_to!(t->Object_0[i as int] => t->Object_0[i as int].1));
                out.push((items[i].0.clone(), from_value(items[i].1)));
            }
            assert(members(out@) =~= t->Object_0);
            Json::Object(out)
        },
    }
}

/// What `serde_json` reads in a text of characters.
pub open spec fn json_of_text(s: Seq<char>) -> Result<JsonTree, Seq<char>> {
    json_document(vstd::utf8::encode_utf8(s))
}

/// Reads a document in a text, or says why there is none.
pub fn read_json_text(s: &str) -> (r: Result<Json, String>)
    ensures
        match r {
            Ok(j) => json_of_text(s@) == Ok::<JsonTree, Seq<char>>(j@),
            Err(m) => json_of_text(s@) == Err::<JsonTree, Seq<char>>(m@),
        },
{
    read_json(s.as_bytes())
}

/// Reads a document, or says why there is none.
pub fn read_json(text: &[u8]) -> (r: Result<Json, String>)
    ensures
        match r {
            Ok(j) => json_document(text@) == Ok::<JsonTree, Seq<char>>(j@),
            Err(m) => json_document(text@) == Err::<JsonTree, Seq<char>>(m@),
        },
{
    match parse_value(text) {
        Ok(v) => Ok(from_value(&v)),
        Err(m) => Err(m),
    }
}

// ------------------------------------------------------------------------- laws

/// The first member with a name is the one that is found, and a name that no
/// member has is not found.
pub proof fn first_member_with_a_name_is_found(
    pairs: Seq<(Seq<char>, JsonTree)>,
    i: int,
    name: Seq<char>,
)
    ensures
        0 <= i < pairs.len() && pairs[i].0 == name && (forall|j: int|
            0 <= j < i ==> (#[trigger] pairs[j]).0 != name) ==> JsonTree::Object(pairs).get(name)
            == Some(pairs[i].1),
        (forall|j: int| 0 <= j < pairs.len() ==> (#[trigger] pairs[j]).0 != name)
            ==> JsonTree::Object(pairs).get(name) is None,
{
    let doc = JsonTree::Object(pairs);
    assert(doc->Object_0 == pairs);
    lemma_first_member(pairs, i, name);
}

proof fn lemma_first_member(pairs: Seq<(Seq<char>, JsonTree)>, i: int, name: Seq<char>)
    ensures
        0 <= i < pairs.len() && pairs[i].0 == name && (forall|j: int|
            0 <= j < i ==> (#[trigger] pairs[j]).0 != name) ==> member(pairs, name) == Some(
            pairs[i].1,
        ),
        (forall|j: int| 0 <= j < pairs.len() ==> (#[trigger] pairs[j]).0 != name) ==> member(
            pairs,
            name,
        ) is None,
    decreases pairs.len(),
{
    if pairs.len() > 0 && pairs[0].0 != name {
        let rest = pairs.skip(1);
        lemma_first_member(rest, i - 1, name);
        assert(forall|j: int| 0 <= j < rest.len() ==> #[trigger] rest[j] == pairs[j + 1]);
    }
}

/// Nothing but an object has members, and what stands under a name is taken for
/// what it is: a text for a text, and nothing else for one.
pub proof fn values_are_taken_for_what_they_are(
    doc: JsonTree,
    outer: Seq<char>,
    name: Seq<char>,
    text: Seq<char>,
    flag: bool,
    n: int,
    items: Seq<JsonTree>,
    inner: JsonTree,
)
    ensures
        !(doc is Object) ==> doc.get(name) is None,
        doc.text_at(name) == Some(text) <==> doc.get(name) == Some(JsonTree::Text(text)),
        doc.flag_at(name) == Some(flag) <==> doc.get(name) == Some(JsonTree::Bool(flag)),
        doc.int_at(name) == Some(n) <==> doc.get(name) == Some(JsonTree::Int(n)),
        doc.items_at(name) == Some(items) <==> doc.get(name) == Some(JsonTree::Array(items)),
        doc.get(name) == Some(JsonTree::Int(n)) ==> doc.number_at(name) == Some(decimal(n)),
        doc.get(name) == Some(JsonTree::Decimal(text)) ==> doc.number_at(name) == Some(text),
        doc.number_at(name) is Some ==> doc.get(name) is Some && (doc.get(name)->Some_0 is Int
            || doc.get(name)->Some_0 is Decimal),
        doc.get(outer) == Some(inner) ==> doc.get_in(outer, name) == inner.get(name),
        doc.get(outer) is None ==> doc.get_in(outer, name) is None,
{
}

/// Of two texts the one comes first that is the front of the other, or that has
/// the lower character where they first differ.
pub proof fn texts_are_ordered_where_they_first_differ(
    front: Seq<char>,
    a: char,
    b: char,
    left: Seq<char>,
    right: Seq<char>,
)
    ensures
        text_less(front, front.push(a) + left),
        a < b ==> text_less(front.push(a) + left, front.push(b) + right),
    decreases front.len(),
{
    let x = front.push(a) + left;
    let y = front.push(b) + right;
    if front.len() > 0 {
        let rest = front.skip(1);
        texts_are_ordered_where_they_first_differ(rest, a, b, left, right);
        assert(x.skip(1) =~= rest.push(a) + left);
        assert(y.skip(1) =~= rest.push(b) + right);
        assert(x[0] == front[0] && y[0] == front[0]);
    } else {
        assert(x[0] == a && y[0] == b);
    }
}

/// A document says what it holds: each value what it is, an array what its items
/// say, and an object what its members say, each in its place.
pub proof fn documents_say_what_they_hold(
    flag: bool,
    n: i64,
    text: String,
    items: Vec<Json>,
    pairs: Vec<(String, Json)>,
    i: int,
    doc: &Json,
)
    ensures
        Json::Null@ == JsonTree::Null,
        Json::Bool(flag)@ == JsonTree::Bool(flag),
        Json::Int(n)@ == JsonTree::Int(n as int),
        Json::Decimal(text)@ == JsonTree::Decimal(text@),
        Json::Text(text)@ == JsonTree::Text(text@),
        Json::Array(items)@ is Array && Json::Array(items)@->Array_0.len() == items@.len(),
        0 <= i < items@.len() ==> Json::Array(items)@->Array_0[i] == items@[i]@,
        Json::Object(pairs)@ is Object && Json::Object(pairs)@->Object_0.len() == pairs@.len(),
        0 <= i < pairs@.len() ==> Json::Object(pairs)@->Object_0[i] == (
            pairs@[i].0@,
            pairs@[i].1@,
        ),
        trees(items@).len() == items@.len(),
        0 <= i < items@.len() ==> trees(items@)[i] == items@[i]@,
        members(pairs@).len() == pairs@.len(),
        0 <= i < pairs@.len() ==> members(pairs@)[i] == (pairs@[i].0@, pairs@[i].1@),
        opt_tree(Some(doc)) == Some(doc@) && opt_tree(None) is None,
{
    lemma_array(items);
    lemma_object(pairs);
}

} // verus!
