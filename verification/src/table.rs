//! A map from strings, kept as a list of entries without repeated keys.

use crate::text;
use vstd::prelude::*;

verus! {

/// A map from strings to values of type `V`, in order of first insertion.
pub struct Table<V> {
    entries: Vec<(String, V)>,
}

/// The value of the entry with key `key`.
pub open spec fn lookup<V>(entries: Seq<(String, V)>, key: Seq<char>) -> Option<V>
    decreases entries.len(),
{
    if entries.len() == 0 {
        None
    } else if entries.last().0@ == key {
        Some(entries.last().1)
    } else {
        lookup(entries.drop_last(), key)
    }
}

/// No two entries have one key.
pub open spec fn distinct_keys<V>(entries: Seq<(String, V)>) -> bool {
    forall|i: int, j: int|
        0 <= i < j < entries.len() ==> (#[trigger] entries[i]).0@ != (#[trigger] entries[j]).0@
}

proof fn lemma_lookup_some<V>(entries: Seq<(String, V)>, key: Seq<char>, i: int)
    requires
        0 <= i < entries.len(),
        entries[i].0@ == key,
        forall|j: int| i < j < entries.len() ==> (#[trigger] entries[j]).0@ != key,
    ensures
        lookup(entries, key) == Some(entries[i].1),
    decreases entries.len(),
{
    if i < entries.len() - 1 {
        assert(entries.last().0@ != key);
        lemma_lookup_some(entries.drop_last(), key, i);
    }
}

proof fn lemma_lookup_none<V>(entries: Seq<(String, V)>, key: Seq<char>)
    requires
        forall|j: int| 0 <= j < entries.len() ==> (#[trigger] entries[j]).0@ != key,
    ensures
        lookup(entries, key) is None,
    decreases entries.len(),
{
    if entries.len() > 0 {
        lemma_lookup_none(entries.drop_last(), key);
    }
}

proof fn lemma_lookup_at<V>(entries: Seq<(String, V)>, key: Seq<char>)
    ensures
        match lookup(entries, key) {
            Some(v) => exists|i: int|
                0 <= i < entries.len() && (#[trigger] entries[i]).0@ == key && entries[i].1 == v,
            None => forall|j: int| 0 <= j < entries.len() ==> (#[trigger] entries[j]).0@ != key,
        },
    decreases entries.len(),
{
    if entries.len() > 0 && entries.last().0@ != key {
        let rest = entries.drop_last();
        lemma_lookup_at(rest, key);
        match lookup(entries, key) {
            Some(v) => {
                let i = choose|i: int|
                    0 <= i < rest.len() && (#[trigger] rest[i]).0@ == key && rest[i].1 == v;
                assert(entries[i] == rest[i]);
            },
            None => {
                assert forall|j: int| 0 <= j < entries.len() implies (#[trigger] entries[j]).0@
                    != key by {
                    if j < rest.len() {
                        assert(rest[j] == entries[j]);
                    }
                }
            },
        }
    } else if entries.len() > 0 {
        assert(entries[entries.len() - 1].0@ == key);
    }
}

impl<V> View for Table<V> {
    type V = Map<Seq<char>, V>;

    open spec fn view(&self) -> Map<Seq<char>, V> {
        Map::new(
            |k: Seq<char>| lookup(self.list(), k) is Some,
            |k: Seq<char>| lookup(self.list(), k)->0,
        )
    }
}

impl<V> Table<V> {
    /// No two entries have one key.
    pub open spec fn wf(self) -> bool {
        distinct_keys(self.list())
    }

    /// The entries in order.
    pub closed spec fn list(self) -> Seq<(String, V)> {
        self.entries@
    }

    /// An empty map.
    pub fn new() -> (out: Self)
        ensures
            out.wf(),
            out@ == Map::<Seq<char>, V>::empty(),
            out.list() == Seq::<(String, V)>::empty(),
    {
        let out = Table { entries: Vec::new() };
        assert(out@ =~= Map::<Seq<char>, V>::empty());
        out
    }

    fn index_of(&self, key: &str) -> (r: Option<usize>)
        ensures
            match r {
                Some(i) => i < self.entries@.len() && self.entries@[i as int].0@ == key@,
                None => forall|j: int|
                    0 <= j < self.entries@.len() ==> (#[trigger] self.entries@[j]).0@ != key@,
            },
    {
        for i in 0..self.entries.len()
            invariant
                forall|j: int| 0 <= j < i ==> (#[trigger] self.entries@[j]).0@ != key@,
        {
            if text::same(self.entries[i].0.as_str(), key) {
                return Some(i);
            }
        }
        None
    }

    /// The value of `key`.
    pub fn get(&self, key: &str) -> (r: Option<&V>)
        requires
            self.wf(),
        ensures
            match r {
                Some(v) => self@.dom().contains(key@) && self@[key@] == *v,
                None => !self@.dom().contains(key@),
            },
    {
        match self.index_of(key) {
            Some(i) => {
                proof {
                    assert forall|j: int| i < j < self.entries@.len() implies (
                    #[trigger] self.entries@[j]).0@ != key@ by {
                        assert(self.entries@[i as int].0@ != self.entries@[j].0@);
                    }
                    lemma_lookup_some(self.entries@, key@, i as int);
                }
                Some(&self.entries[i].1)
            },
            None => {
                proof {
                    lemma_lookup_none(self.entries@, key@);
                }
                None
            },
        }
    }

    /// Sets the value of `key`: a key that is there keeps its place, a new one
    /// goes to the end.
    pub fn insert(&mut self, key: String, value: V)
        requires
            old(self).wf(),
        ensures
            final(self).wf(),
            final(self)@ == old(self)@.insert(key@, value),
            if old(self)@.dom().contains(key@) {
                exists|i: int|
                    0 <= i < old(self).list().len() && (#[trigger] old(self).list()[i]).0@ == key@
                        && final(self).list() == old(self).list().update(i, (key, value))
            } else {
                final(self).list() == old(self).list().push((key, value))
            },
    {
        let ghost before = self.entries@;
        let ghost was = self@;
        match self.index_of(key.as_str()) {
            Some(i) => {
                let ghost name = key@;
                self.entries[i] = (key, value);
                let ghost after = self.entries@;
                assert(old(self).list()[i as int].0@ == name);
                assert(self.list() =~= old(self).list().update(i as int, (key, value)));
                assert forall|a: int, b: int| 0 <= a < b < after.len() implies (
                #[trigger] after[a]).0@ != (#[trigger] after[b]).0@ by {
                    assert(before[a].0@ != before[b].0@);
                }
                assert forall|k: Seq<char>| #[trigger]
                    lookup(after, k) == (if k == name {
                        Some(value)
                    } else {
                        lookup(before, k)
                    }) by {
                    if k == name {
                        assert forall|j: int| i < j < after.len() implies (#[trigger] after[j]).0@
                            != name by {
                            assert(before[i as int].0@ != before[j].0@);
                        }
                        lemma_lookup_some(after, name, i as int);
                    } else {
                        lemma_lookup_elsewhere(before, after, i as int, k);
                    }
                }
                proof {
                    lemma_lookup_at(before, name);
                }
                assert(self@ =~= was.insert(name, value));
                assert(was.dom().contains(name)) by {
                    if lookup(before, name) is None {
                        assert(before[i as int].0@ != name);
                    }
                }
            },
            None => {
                let ghost name = key@;
                proof {
                    lemma_lookup_none(before, name);
                }
                self.entries.push((key, value));
                let ghost after = self.entries@;
                assert(after.drop_last() =~= before);
                assert forall|k: Seq<char>| #[trigger]
                    lookup(after, k) == (if k == name {
                        Some(value)
                    } else {
                        lookup(before, k)
                    }) by {}
                assert(self@ =~= was.insert(name, value));
            },
        }
    }

    /// Takes `key` out; whether it was there. The other keys keep their order.
    pub fn remove(&mut self, key: &str) -> (had: bool)
        requires
            old(self).wf(),
        ensures
            final(self).wf(),
            final(self)@ == old(self)@.remove(key@),
            had == old(self)@.dom().contains(key@),
            if had {
                exists|i: int|
                    0 <= i < old(self).list().len() && (#[trigger] old(self).list()[i]).0@ == key@
                        && final(self).list() == old(self).list().remove(i)
            } else {
                final(self).list() == old(self).list()
            },
    {
        let ghost before = self.entries@;
        let ghost was = self@;
        match self.index_of(key) {
            Some(i) => {
                self.entries.remove(i);
                let ghost after = self.entries@;
                assert forall|a: int, b: int| 0 <= a < b < after.len() implies (
                #[trigger] after[a]).0@ != (#[trigger] after[b]).0@ by {
                    let a0 = if a < i {
                        a
                    } else {
                        a + 1
                    };
                    let b0 = if b < i {
                        b
                    } else {
                        b + 1
                    };
                    assert(before[a0].0@ != before[b0].0@);
                }
                assert forall|k: Seq<char>| #[trigger]
                    lookup(after, k) == (if k == key@ {
                        None
                    } else {
                        lookup(before, k)
                    }) by {
                    if k == key@ {
                        assert forall|j: int| 0 <= j < after.len() implies (#[trigger] after[j]).0@
                            != key@ by {
                            let j0 = if j < i {
                                j
                            } else {
                                j + 1
                            };
                            if j0 < i {
                                assert(before[j0].0@ != before[i as int].0@);
                            } else {
                                assert(before[i as int].0@ != before[j0].0@);
                            }
                        }
                        lemma_lookup_none(after, key@);
                    } else {
                        lemma_lookup_removed(before, i as int, k);
                        assert(after =~= before.remove(i as int));
                    }
                }
                proof {
                    lemma_lookup_at(before, key@);
                }
                assert(self@ =~= was.remove(key@));
                assert(lookup(before, key@) is Some) by {
                    if lookup(before, key@) is None {
                        assert(before[i as int].0@ != key@);
                    }
                }
                true
            },
            None => {
                proof {
                    lemma_lookup_none(before, key@);
                }
                assert(self@ =~= was.remove(key@));
                false
            },
        }
    }

    /// How many keys there are.
    pub fn len(&self) -> (n: usize)
        ensures
            n == self.list().len(),
    {
        self.entries.len()
    }

    /// The entry at place `i`.
    pub fn at(&self, i: usize) -> (r: (&String, &V))
        requires
            i < self.list().len(),
        ensures
            *r.0 == self.list()[i as int].0,
            *r.1 == self.list()[i as int].1,
    {
        (&self.entries[i].0, &self.entries[i].1)
    }

    /// The entries in order.
    pub fn into_entries(self) -> (out: Vec<(String, V)>)
        ensures
            out@ == self.list(),
    {
        self.entries
    }
}

proof fn lemma_lookup_elsewhere<V>(
    before: Seq<(String, V)>,
    after: Seq<(String, V)>,
    i: int,
    k: Seq<char>,
)
    requires
        0 <= i < before.len(),
        after == before.update(i, after[i]),
        after[i].0@ == before[i].0@,
        before[i].0@ != k,
    ensures
        lookup(after, k) == lookup(before, k),
    decreases before.len(),
{
    if i < before.len() - 1 {
        assert(after.drop_last() =~= before.drop_last().update(i, after[i]));
        lemma_lookup_elsewhere(before.drop_last(), after.drop_last(), i, k);
    } else {
        assert(after.drop_last() =~= before.drop_last());
    }
}

proof fn lemma_lookup_removed<V>(before: Seq<(String, V)>, i: int, k: Seq<char>)
    requires
        0 <= i < before.len(),
        before[i].0@ != k,
    ensures
        lookup(before.remove(i), k) == lookup(before, k),
    decreases before.len(),
{
    if i < before.len() - 1 {
        assert(before.remove(i).drop_last() =~= before.drop_last().remove(i));
        lemma_lookup_removed(before.drop_last(), i, k);
    } else {
        assert(before.remove(i) =~= before.drop_last());
    }
}

} // verus!
