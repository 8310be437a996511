//! A table of values by name, in which no name occurs twice.
use crate::text::same_text;
use vstd::prelude::*;

verus! {

/// Values by name. The entries stand in the order in which their names were
/// first put in.
pub struct Table<V> {
    entries: Vec<(String, V)>,
}

impl<V> Table<V> {
    /// The entries, in order.
    pub closed spec fn pairs(self) -> Seq<(String, V)> {
        self.entries@
    }

    /// The value under a name.
    pub open spec fn value_of(self, name: Seq<char>) -> Option<V> {
        if self@.contains_key(name) {
            Some(self@[name])
        } else {
            None
        }
    }

    /// No name occurs twice.
    pub open spec fn wf(self) -> bool {
        distinct(self.pairs())
    }
}

/// No two entries have the same name.
pub open spec fn distinct<V>(pairs: Seq<(String, V)>) -> bool {
    forall|i: int, j: int|
        0 <= i < pairs.len() && 0 <= j < pairs.len() && i != j ==> #[trigger] pairs[i].0@
            != #[trigger] pairs[j].0@
}

/// Whether an entry has this name.
pub open spec fn names<V>(pairs: Seq<(String, V)>, name: Seq<char>) -> bool {
    exists|i: int| 0 <= i < pairs.len() && #[trigger] pairs[i].0@ == name
}

/// The position of the entry with this name.
pub open spec fn place<V>(pairs: Seq<(String, V)>, name: Seq<char>) -> int {
    choose|i: int| 0 <= i < pairs.len() && #[trigger] pairs[i].0@ == name
}

/// The map that the entries make up.
pub open spec fn map_of<V>(pairs: Seq<(String, V)>) -> Map<Seq<char>, V> {
    Map::new(
        |name: Seq<char>| names(pairs, name),
        |name: Seq<char>| pairs[place(pairs, name)].1,
    )
}

impl<V> View for Table<V> {
    type V = Map<Seq<char>, V>;

    open spec fn view(&self) -> Map<Seq<char>, V> {
        map_of(self.pairs())
    }
}

proof fn lemma_place<V>(pairs: Seq<(String, V)>, i: int)
    requires
        distinct(pairs),
        0 <= i < pairs.len(),
    ensures
        names(pairs, pairs[i].0@),
        place(pairs, pairs[i].0@) == i,
        map_of(pairs).contains_key(pairs[i].0@),
        map_of(pairs)[pairs[i].0@] == pairs[i].1,
{
}

/// The map of a table holds each entry under its name, and nothing else.
pub proof fn lemma_entries<V>(table: Table<V>)
    requires
        table.wf(),
    ensures
        forall|i: int|
            0 <= i < table.pairs().len() ==> table@.contains_key(#[trigger] table.pairs()[i].0@)
                && table@[table.pairs()[i].0@] == table.pairs()[i].1,
        forall|name: Seq<char>| #[trigger]
            table@.contains_key(name) ==> exists|i: int|
                0 <= i < table.pairs().len() && #[trigger] table.pairs()[i].0@ == name,
{
    assert forall|i: int| 0 <= i < table.pairs().len() implies table@.contains_key(
        #[trigger] table.pairs()[i].0@,
    ) && table@[table.pairs()[i].0@] == table.pairs()[i].1 by {
        lemma_place(table.pairs(), i);
    }
}

proof fn lemma_count<V>(pairs: Seq<(String, V)>)
    requires
        distinct(pairs),
    ensures
        map_of(pairs).dom().finite(),
        map_of(pairs).dom().len() == pairs.len(),
    decreases pairs.len(),
{
    if pairs.len() == 0 {
        assert(map_of(pairs).dom() =~= Set::empty());
    } else {
        let rest = pairs.drop_last();
        let last = pairs.last();
        assert(distinct(rest)) by {
            assert forall|i: int, j: int|
                0 <= i < rest.len() && 0 <= j < rest.len() && i != j implies #[trigger] rest[i].0@
                != #[trigger] rest[j].0@ by {
                assert(rest[i] == pairs[i] && rest[j] == pairs[j]);
            }
        }
        lemma_count(rest);
        assert(!map_of(rest).dom().contains(last.0@)) by {
            if names(rest, last.0@) {
                let i = place(rest, last.0@);
                assert(pairs[i].0@ == pairs[pairs.len() - 1].0@);
            }
        }
        assert(map_of(pairs).dom() =~= map_of(rest).dom().insert(last.0@)) by {
            assert forall|name: Seq<char>| names(pairs, name) == (names(rest, name) || name
                == last.0@) by {
                if names(pairs, name) {
                    let i = place(pairs, name);
                    if i < rest.len() {
                        assert(rest[i].0@ == name);
                    }
                }
                if names(rest, name) {
                    let i = place(rest, name);
                    assert(pairs[i].0@ == name);
                }
                if name == last.0@ {
                    assert(pairs[pairs.len() - 1].0@ == name);
                }
            }
        }
    }
}

impl<V> Table<V> {
    /// A table without entries.
    pub fn new() -> (r: Self)
        ensures
            r.wf(),
            r@ == Map::<Seq<char>, V>::empty(),
            r.pairs().len() == 0,
    {
        let r = Table { entries: Vec::new() };
        assert(r@ =~= Map::<Seq<char>, V>::empty());
        r
    }

    /// The number of entries.
    pub fn len(&self) -> (r: usize)
        requires
            self.wf(),
        ensures
            r == self@.dom().len(),
            self@.dom().finite(),
            r == self.pairs().len(),
    {
        proof {
            lemma_count(self.pairs());
        }
        self.entries.len()
    }

    /// The entry at a position.
    pub fn entry(&self, i: usize) -> (r: (&String, &V))
        requires
            i < self.pairs().len(),
        ensures
            *r.0 == self.pairs()[i as int].0,
            *r.1 == self.pairs()[i as int].1,
    {
        let e = &self.entries[i];
        (&e.0, &e.1)
    }

    fn find(&self, name: &str) -> (r: Option<usize>)
        requires
            self.wf(),
        ensures
            match r {
                Some(i) => i < self.pairs().len() && self.pairs()[i as int].0@ == name@
                    && self@.contains_key(name@) && self@[name@] == self.pairs()[i as int].1,
                None => !self@.contains_key(name@),
            },
    {
        for i in 0..self.entries.len()
            invariant
                self.wf(),
                forall|j: int| 0 <= j < i ==> #[trigger] self.entries@[j].0@ != name@,
        {
            if same_text(self.entries[i].0.as_str(), name) {
                proof {
                    lemma_place(self.pairs(), i as int);
                }
                return Some(i);
            }
        }
        None
    }

    /// The value under a name.
    pub fn get(&self, name: &str) -> (r: Option<&V>)
        requires
            self.wf(),
        ensures
            match r {
                Some(v) => self@.contains_key(name@) && *v == self@[name@],
                None => !self@.contains_key(name@),
            },
    {
        match self.find(name) {
            Some(i) => Some(&self.entries[i].1),
            None => None,
        }
    }

    /// Whether there is an entry with this name.
    pub fn contains_key(&self, name: &str) -> (r: bool)
        requires
            self.wf(),
        ensures
            r == self@.contains_key(name@),
    {
        match self.find(name) {
            Some(_) => true,
            None => false,
        }
    }

    /// Puts `value` under `name`, in the place of what was there before.
    pub fn insert(&mut self, name: String, value: V)
        requires
            old(self).wf(),
        ensures
            final(self).wf(),
            final(self)@ == old(self)@.insert(name@, value),
    {
        let ghost before = self.pairs();
        match self.find(name.as_str()) {
            Some(i) => {
                self.entries[i] = (name, value);
                proof {
                    let after = self.pairs();
                    assert(forall|j: int|
                        0 <= j < after.len() ==> #[trigger] after[j].0@ == before[j].0@);
                    assert(distinct(after));
                    lemma_same(before, after, i as int, name@, value);
                }
            },
            None => {
                self.entries.push((name, value));
                proof {
                    let after = self.pairs();
                    let n = before.len() as int;
                    assert(distinct(after)) by {
                        assert forall|i: int, j: int|
                            0 <= i < after.len() && 0 <= j < after.len() && i
                                != j implies #[trigger] after[i].0@ != #[trigger] after[j].0@ by {
                            if i < n {
                                lemma_place(before, i);
                            }
                            if j < n {
                                lemma_place(before, j);
                            }
                        }
                    }
                    assert(map_of(after) =~= map_of(before).insert(name@, value)) by {
                        lemma_extended(before, after);
                    }
                }
            },
        }
    }
}

proof fn lemma_same<V>(
    before: Seq<(String, V)>,
    after: Seq<(String, V)>,
    i: int,
    name: Seq<char>,
    value: V,
)
    requires
        distinct(before),
        distinct(after),
        before.len() == after.len(),
        0 <= i < after.len(),
        after[i].0@ == name,
        after[i].1 == value,
        forall|j: int| 0 <= j < after.len() ==> #[trigger] after[j].0@ == before[j].0@,
        forall|j: int| 0 <= j < after.len() && j != i ==> #[trigger] after[j].1 == before[j].1,
    ensures
        map_of(after) == map_of(before).insert(name, value),
{
    assert forall|k: Seq<char>| names(after, k) == names(before, k) by {
        if names(after, k) {
            assert(before[place(after, k)].0@ == k);
        }
        if names(before, k) {
            assert(after[place(before, k)].0@ == k);
        }
    }
    assert forall|k: Seq<char>| names(after, k) implies #[trigger] map_of(after)[k] == map_of(
        before,
    ).insert(name, value)[k] by {
        let j = place(after, k);
        lemma_place(after, j);
        lemma_place(before, j);
    }
    lemma_place(after, i);
    assert(map_of(after) =~= map_of(before).insert(name, value));
}

proof fn lemma_extended<V>(before: Seq<(String, V)>, after: Seq<(String, V)>)
    requires
        distinct(before),
        distinct(after),
        after.len() == before.len() + 1,
        forall|j: int| 0 <= j < before.len() ==> #[trigger] after[j] == before[j],
    ensures
        map_of(after) == map_of(before).insert(after.last().0@, after.last().1),
{
    let n = before.len() as int;
    assert forall|k: Seq<char>| names(after, k) == (names(before, k) || k == after.last().0@) by {
        if names(after, k) {
            let j = place(after, k);
            if j < n {
                assert(before[j].0@ == k);
            }
        }
        if names(before, k) {
            assert(after[place(before, k)].0@ == k);
        }
        if k == after.last().0@ {
            assert(after[n].0@ == k);
        }
    }
    assert forall|k: Seq<char>| names(after, k) implies #[trigger] map_of(after)[k] == map_of(
        before,
    ).insert(after.last().0@, after.last().1)[k] by {
        let j = place(after, k);
        lemma_place(after, j);
        if j < n {
            lemma_place(before, j);
        }
    }
    assert(map_of(after) =~= map_of(before).insert(after.last().0@, after.last().1));
}

proof fn lemma_without<V>(before: Seq<(String, V)>, after: Seq<(String, V)>, i: int)
    requires
        distinct(before),
        0 <= i < before.len(),
        after == before.remove(i),
    ensures
        distinct(after),
        map_of(after) == map_of(before).remove(before[i].0@),
{
    assert forall|a: int, b: int|
        0 <= a < after.len() && 0 <= b < after.len() && a != b implies #[trigger] after[a].0@
        != #[trigger] after[b].0@ by {
        let x = if a < i {
            a
        } else {
            a + 1
        };
        let y = if b < i {
            b
        } else {
            b + 1
        };
        assert(after[a] == before[x] && after[b] == before[y]);
    }
    let gone = before[i].0@;
    assert forall|k: Seq<char>| names(after, k) == (names(before, k) && k != gone) by {
        if names(after, k) {
            let j = place(after, k);
            let x = if j < i {
                j
            } else {
                j + 1
            };
            assert(after[j] == before[x]);
            assert(before[x].0@ == k);
        }
        if names(before, k) && k != gone {
            let j = place(before, k);
            let x = if j < i {
                j
            } else {
                j - 1
            };
            assert(after[x] == before[j]);
            assert(after[x].0@ == k);
        }
    }
    assert forall|k: Seq<char>| names(after, k) implies #[trigger] map_of(after)[k] == map_of(
        before,
    )[k] by {
        let j = place(after, k);
        lemma_place(after, j);
        let x = if j < i {
            j
        } else {
            j + 1
        };
        assert(after[j] == before[x]);
        lemma_place(before, x);
    }
    assert(map_of(after) =~= map_of(before).remove(gone));
}

impl<V> Table<V> {
    /// Takes the entry with this name out of the table.
    pub fn remove(&mut self, name: &str) -> (r: Option<V>)
        requires
            old(self).wf(),
        ensures
            final(self).wf(),
            final(self)@ == old(self)@.remove(name@),
            r == old(self).value_of(name@),
    {
        let ghost before = self.pairs();
        match self.find(name) {
            Some(i) => {
                let gone = self.entries.remove(i);
                proof {
                    lemma_without(before, self.pairs(), i as int);
                }
                Some(gone.1)
            },
            None => {
                assert(self@.remove(name@) =~= self@);
                None
            },
        }
    }

    /// The value under a name, for writing.
    pub fn get_mut(&mut self, name: &str) -> (r: Option<&mut V>)
        requires
            old(self).wf(),
        ensures
            final(self).wf(),
            match r {
                Some(v) => old(self)@.contains_key(name@) && *v == old(self)@[name@]
                    && final(self)@ == old(self)@.insert(name@, *final(v)),
                None => !old(self)@.contains_key(name@) && *final(self) == *old(self),
            },
    {
        match self.find(name) {
            Some(i) => {
                proof {
                    let before = self.pairs();
                    assert forall|x: V|
                        #![trigger before.update(i as int, (before[i as int].0, x))]
                        distinct(before.update(i as int, (before[i as int].0, x))) && map_of(
                            before.update(i as int, (before[i as int].0, x)),
                        ) == map_of(before).insert(name@, x) by {
                        let after = before.update(i as int, (before[i as int].0, x));
                        assert(forall|j: int|
                            0 <= j < after.len() ==> #[trigger] after[j].0@ == before[j].0@);
                        lemma_same(before, after, i as int, name@, x);
                    }
                }
                let e = &mut self.entries[i];
                Some(&mut e.1)
            },
            None => None,
        }
    }

    /// Keeps the entries whose value `keep` accepts.
    pub fn retain<F: Fn(&V) -> bool>(&mut self, keep: F)
        requires
            old(self).wf(),
            forall|v: &V| #[trigger] keep.requires((v,)),
        ensures
            final(self).wf(),
            final(self)@.dom().subset_of(old(self)@.dom()),
            forall|k: Seq<char>| #[trigger]
                old(self)@.contains_key(k) ==> exists|kept: bool| #[trigger]
                    keep.ensures((&old(self)@[k],), kept) && final(self)@.contains_key(k) == kept,
            forall|k: Seq<char>| #[trigger]
                final(self)@.contains_key(k) ==> final(self)@[k] == old(self)@[k],
    {
        let mut i: usize = 0;
        let ghost start = *self;
        proof {
            lemma_entries(*self);
        }
        while i < self.entries.len()
            invariant
                i <= self.entries@.len(),
                self.wf(),
                start.wf(),
                forall|v: &V| #[trigger] keep.requires((v,)),
                self@.dom().subset_of(start@.dom()),
                forall|k: Seq<char>| #[trigger] self@.contains_key(k) ==> self@[k] == start@[k],
                forall|k: Seq<char>| #[trigger]
                    start@.contains_key(k) && !self@.contains_key(k) ==> keep.ensures(
                        (&start@[k],),
                        false,
                    ),
                forall|j: int|
                    0 <= j < i ==> keep.ensures((&(#[trigger] self.entries@[j]).1,), true),
            decreases self.entries@.len() - i,
        {
            let ghost before = *self;
            proof {
                lemma_entries(*self);
            }
            if keep(&self.entries[i].1) {
                i += 1;
            } else {
                let gone = self.entries.remove(i);
                proof {
                    lemma_without(before.pairs(), self.pairs(), i as int);
                }
            }
        }
        proof {
            lemma_entries(*self);
            assert forall|k: Seq<char>| #[trigger] start@.contains_key(k) implies exists|
                kept: bool,
            | #[trigger]
                keep.ensures((&start@[k],), kept) && self@.contains_key(k) == kept by {
                if self@.contains_key(k) {
                    let j = place(self.pairs(), k);
                    lemma_place(self.pairs(), j);
                    assert(keep.ensures((&self.entries@[j].1,), true));
                    assert(keep.ensures((&start@[k],), true));
                } else {
                    assert(keep.ensures((&start@[k],), false));
                }
            }
        }
    }
}

/// The value under a name is the one that the table's map holds there.
pub proof fn value_is_the_one_under_its_name<V>(table: Table<V>, name: Seq<char>)
    ensures
        table@.contains_key(name) ==> table.value_of(name) == Some(table@[name]),
        !table@.contains_key(name) ==> table.value_of(name) is None,
{
}

} // verus!
