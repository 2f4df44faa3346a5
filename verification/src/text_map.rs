//! A map from texts that can be walked in the order in which its keys came.

use crate::text::same_text;
use vstd::prelude::*;

verus! {

/// The map that a list of entries stands for.
pub open spec fn entry_map<V>(entries: Seq<(String, V)>) -> Map<Seq<char>, V>
    decreases entries.len(),
{
    if entries.len() == 0 {
        Map::empty()
    } else {
        entry_map(entries.drop_last()).insert(entries.last().0@, entries.last().1)
    }
}

/// Whether no key occurs twice.
pub open spec fn distinct_keys<V>(entries: Seq<(String, V)>) -> bool {
    forall|i: int, j: int|
        0 <= i < j < entries.len() ==> (#[trigger] entries[i]).0@ != (#[trigger] entries[j]).0@
}

/// A map from texts.
#[derive(Debug, PartialEq, Eq)]
pub struct TextMap<V> {
    entries: Vec<(String, V)>,
}

impl<V> View for TextMap<V> {
    type V = Map<Seq<char>, V>;

    closed spec fn view(&self) -> Map<Seq<char>, V> {
        entry_map(self.entries@)
    }
}

/// A key of the list is a key of the map, with the entry's value.
pub proof fn lemma_entry<V>(entries: Seq<(String, V)>, i: int)
    requires
        distinct_keys(entries),
        0 <= i < entries.len(),
    ensures
        entry_map(entries).contains_key(entries[i].0@),
        entry_map(entries)[entries[i].0@] == entries[i].1,
    decreases entries.len(),
{
    if i < entries.len() - 1 {
        let rest = entries.drop_last();
        assert(distinct_keys(rest)) by {
            assert forall|a: int, b: int| 0 <= a < b < rest.len() implies (#[trigger] rest[a]).0@
                != (#[trigger] rest[b]).0@ by {
                assert(entries[a].0@ != entries[b].0@);
            }
        }
        lemma_entry(rest, i);
        assert(rest[i] == entries[i]);
        assert(entries[i].0@ != entries[entries.len() - 1].0@);
    }
}

/// A key of the map is a key of the list.
pub proof fn lemma_key<V>(entries: Seq<(String, V)>, key: Seq<char>) -> (i: int)
    requires
        entry_map(entries).contains_key(key),
    ensures
        0 <= i < entries.len(),
        entries[i].0@ == key,
    decreases entries.len(),
{
    if entries.last().0@ == key {
        entries.len() - 1
    } else {
        let i = lemma_key(entries.drop_last(), key);
        assert(entries.drop_last()[i] == entries[i]);
        i
    }
}

/// Two lists with the same entries stand for the same map.
proof fn lemma_same_map<V>(a: Seq<(String, V)>, b: Map<Seq<char>, V>)
    requires
        distinct_keys(a),
        forall|i: int|
            0 <= i < a.len() ==> b.contains_key((#[trigger] a[i]).0@) && b[a[i].0@] == a[i].1,
        forall|key: Seq<char>| #[trigger] b.contains_key(key) ==> has_key(a, key),
    ensures
        entry_map(a) == b,
{
    let m = entry_map(a);
    assert forall|key: Seq<char>| #[trigger] m.dom().contains(key) implies b.dom().contains(key)
        && m[key] == b[key] by {
        let i = lemma_key(a, key);
        lemma_entry(a, i);
    }
    assert forall|key: Seq<char>| #[trigger] b.dom().contains(key) implies m.dom().contains(key) by {
        assert(b.contains_key(key));
        let i = choose|i: int| 0 <= i < a.len() && (#[trigger] a[i]).0@ == key;
        lemma_entry(a, i);
    }
    assert(m =~= b);
}

/// Whether a list has a key.
pub open spec fn has_key<V>(entries: Seq<(String, V)>, key: Seq<char>) -> bool {
    exists|i: int| 0 <= i < entries.len() && (#[trigger] entries[i]).0@ == key
}

impl<V> TextMap<V> {
    pub closed spec fn wf(&self) -> bool {
        distinct_keys(self.entries@)
    }

    /// The entries, in the order in which their keys came.
    pub closed spec fn list(&self) -> Seq<(String, V)> {
        self.entries@
    }

    /// The list holds the map's entries, each key once.
    pub proof fn list_is_the_map(&self)
        requires
            self.wf(),
        ensures
            distinct_keys(self.list()),
            entry_map(self.list()) == self@,
            forall|i: int|
                0 <= i < self.list().len() ==> self@.contains_key((#[trigger] self.list()[i]).0@)
                    && self@[self.list()[i].0@] == self.list()[i].1,
            forall|key: Seq<char>| #[trigger] self@.contains_key(key) ==> has_key(self.list(), key),
    {
        assert forall|i: int| 0 <= i < self.list().len() implies self@.contains_key(
            (#[trigger] self.list()[i]).0@,
        ) && self@[self.list()[i].0@] == self.list()[i].1 by {
            lemma_entry(self.list(), i);
        }
        assert forall|key: Seq<char>| #[trigger] self@.contains_key(key) implies has_key(
            self.list(),
            key,
        ) by {
            let i = lemma_key(self.list(), key);
        }
    }

    /// A map without entries.
    pub fn new() -> (r: Self)
        ensures
            r.wf(),
            r@ == Map::<Seq<char>, V>::empty(),
            r.list().len() == 0,
    {
        TextMap { entries: Vec::new() }
    }

    /// How many entries there are.
    pub fn len(&self) -> (r: usize)
        ensures
            r == self.list().len(),
    {
        self.entries.len()
    }

    /// The key of an entry.
    pub fn key(&self, i: usize) -> (r: &String)
        requires
            i < self.list().len(),
        ensures
            *r == self.list()[i as int].0,
    {
        &self.entries[i].0
    }

    /// The value of an entry.
    pub fn value(&self, i: usize) -> (r: &V)
        requires
            i < self.list().len(),
        ensures
            *r == self.list()[i as int].1,
    {
        &self.entries[i].1
    }

    fn position(&self, key: &str) -> (r: Option<usize>)
        requires
            self.wf(),
        ensures
            match r {
                Some(i) => i < self.list().len() && self.list()[i as int].0@ == key@,
                None => !has_key(self.list(), key@),
            },
    {
        let mut i: usize = 0;
        while i < self.entries.len()
            invariant
                i <= self.entries@.len(),
                forall|k: int| 0 <= k < i ==> (#[trigger] self.entries@[k]).0@ != key@,
            decreases self.entries@.len() - i,
        {
            if same_text(self.entries[i].0.as_str(), key) {
                return Some(i);
            }
            i = i + 1;
        }
        None
    }

    /// The value of a key.
    pub fn get(&self, key: &str) -> (r: Option<&V>)
        requires
            self.wf(),
        ensures
            match r {
                Some(value) => self@.contains_key(key@) && self@[key@] == *value,
                None => !self@.contains_key(key@),
            },
    {
        proof {
            self.list_is_the_map();
        }
        match self.position(key) {
            Some(i) => Some(&self.entries[i].1),
            None => None,
        }
    }

    /// Gives an entry another value.
    pub fn set_value(&mut self, i: usize, value: V)
        requires
            old(self).wf(),
            i < old(self).list().len(),
        ensures
            final(self).wf(),
            final(self).list() == old(self).list().update(
                i as int,
                (old(self).list()[i as int].0, value),
            ),
            final(self)@ == old(self)@.insert(old(self).list()[i as int].0@, value),
    {
        let ghost before = self.entries@;
        let ghost map = self@;
        proof {
            self.list_is_the_map();
        }
        let key = self.entries[i].0.clone();
        self.entries.set(i, (key, value));
        proof {
            assert(self.entries@ =~= before.update(i as int, (before[i as int].0, value)));
            assert forall|a: int, b: int| 0 <= a < b < self.entries@.len() implies (
            #[trigger] self.entries@[a]).0@ != (#[trigger] self.entries@[b]).0@ by {
                assert(before[a].0@ != before[b].0@);
            }
            let target = map.insert(before[i as int].0@, value);
            assert forall|k: int| 0 <= k < self.entries@.len() implies target.contains_key(
                (#[trigger] self.entries@[k]).0@,
            ) && target[self.entries@[k].0@] == self.entries@[k].1 by {
                assert(before[k].0@ == self.entries@[k].0@);
                if k < i {
                    assert(before[k].0@ != before[i as int].0@);
                } else if k > i {
                    assert(before[i as int].0@ != before[k].0@);
                }
            }
            assert forall|key: Seq<char>| #[trigger] target.contains_key(key) implies has_key(
                self.entries@,
                key,
            ) by {
                if key == before[i as int].0@ {
                    assert(self.entries@[i as int].0@ == key);
                } else {
                    assert(map.contains_key(key));
                    let k = choose|k: int| 0 <= k < before.len() && (#[trigger] before[k]).0@ == key;
                    assert(self.entries@[k].0@ == key);
                }
            }
            lemma_same_map(self.entries@, target);
        }
    }

    /// Sets the value of a key.
    pub fn insert(&mut self, key: String, value: V)
        requires
            old(self).wf(),
        ensures
            final(self).wf(),
            final(self)@ == old(self)@.insert(key@, value),
    {
        match self.position(key.as_str()) {
            Some(i) => {
                self.set_value(i, value);
            },
            None => {
                let ghost before = self.entries@;
                self.entries.push((key, value));
                proof {
                    assert(self.entries@.drop_last() =~= before);
                    assert forall|a: int, b: int| 0 <= a < b < self.entries@.len() implies (
                    #[trigger] self.entries@[a]).0@ != (#[trigger] self.entries@[b]).0@ by {
                        if b < before.len() {
                            assert(before[a].0@ != before[b].0@);
                        } else {
                            assert(before[a].0@ != key@);
                        }
                    }
                }
            },
        }
    }

    /// Takes a key out; the answer is whether it was in.
    pub fn remove(&mut self, key: &str) -> (r: bool)
        requires
            old(self).wf(),
        ensures
            final(self).wf(),
            r == old(self)@.contains_key(key@),
            final(self)@ == old(self)@.remove(key@),
    {
        proof {
            self.list_is_the_map();
        }
        let ghost before = self.entries@;
        let ghost map = self@;
        match self.position(key) {
            Some(i) => {
                self.entries.remove(i);
                proof {
                    let after = self.entries@;
                    assert forall|a: int, b: int| 0 <= a < b < after.len() implies (
                    #[trigger] after[a]).0@ != (#[trigger] after[b]).0@ by {
                        let x = if a < i {
                            a
                        } else {
                            a + 1
                        };
                        let y = if b < i {
                            b
                        } else {
                            b + 1
                        };
                        assert(before[x].0@ != before[y].0@);
                    }
                    let target = map.remove(key@);
                    assert forall|k: int| 0 <= k < after.len() implies target.contains_key(
                        (#[trigger] after[k]).0@,
                    ) && target[after[k].0@] == after[k].1 by {
                        if k < i {
                            assert(after[k] == before[k]);
                            assert(before[k].0@ != before[i as int].0@);
                        } else {
                            assert(after[k] == before[k + 1]);
                            assert(before[i as int].0@ != before[k + 1].0@);
                        }
                    }
                    assert forall|other: Seq<char>| #[trigger] target.contains_key(
                        other,
                    ) implies has_key(after, other) by {
                        assert(map.contains_key(other));
                        let k = choose|k: int|
                            0 <= k < before.len() && (#[trigger] before[k]).0@ == other;
                        if k < i {
                            assert(after[k].0@ == other);
                        } else {
                            assert(k != i);
                            assert(after[k - 1].0@ == other);
                        }
                    }
                    lemma_same_map(after, target);
                }
                true
            },
            None => {
                assert(map.remove(key@) =~= map);
                false
            },
        }
    }
}

} // verus!
