//! A keyed table: entries in insertion order, at most one per key, viewed
//! as a map from the keys' views to the values.
use vstd::prelude::*;
use crate::identity::Key;

verus! {

pub struct Table<K, V> {
    pub entries: Vec<(K, V)>,
}

impl<K: Key, V> Table<K, V> {
    /// No two entries share a key.
    pub open spec fn wf(&self) -> bool {
        forall|i: int, j: int|
            0 <= i < j < self.entries@.len() ==> #[trigger] self.entries@[i].0@
                != #[trigger] self.entries@[j].0@
    }

    pub open spec fn slot(&self, k: K::V, i: int) -> bool {
        0 <= i < self.entries@.len() && self.entries@[i].0@ == k
    }

    pub open spec fn has(&self, k: K::V) -> bool {
        exists|i: int| self.slot(k, i)
    }

    pub open spec fn view(&self) -> Map<K::V, V> {
        Map::new(|k: K::V| self.has(k), |k: K::V| self.entries@[choose|i: int| self.slot(k, i)].1)
    }

    proof fn lemma_slot(&self, k: K::V, i: int)
        requires
            self.wf(),
            self.slot(k, i),
        ensures
            self@.contains_key(k),
            self@[k] == self.entries@[i].1,
    {
        let j = choose|j: int| self.slot(k, j);
        assert(self.slot(k, j));
        if i < j {
            assert(self.entries@[i].0@ != self.entries@[j].0@);
        } else if j < i {
            assert(self.entries@[j].0@ != self.entries@[i].0@);
        }
    }

    pub fn new() -> (r: Self)
        ensures
            r.wf(),
            r@ == Map::<K::V, V>::empty(),
    {
        let r = Table { entries: Vec::new() };
        assert(r@ =~= Map::<K::V, V>::empty());
        r
    }

    /// Where the entry for `k` stands, if there is one.
    pub fn position(&self, k: &K) -> (r: Option<usize>)
        requires
            self.wf(),
        ensures
            match r {
                Some(i) => self.slot(k@, i as int) && self@.contains_key(k@) && self@[k@]
                    == self.entries@[i as int].1,
                None => !self@.contains_key(k@),
            },
    {
        let mut i: usize = 0;
        while i < self.entries.len()
            invariant
                i <= self.entries.len(),
                self.wf(),
                forall|t: int| 0 <= t < i ==> self.entries@[t].0@ != k@,
            decreases self.entries.len() - i,
        {
            if self.entries[i].0.same(k) {
                proof {
                    self.lemma_slot(k@, i as int);
                }
                return Some(i);
            }
            i += 1;
        }
        None
    }

    /// The value stored under `k`.
    pub fn get(&self, k: &K) -> (r: Option<&V>)
        requires
            self.wf(),
        ensures
            r is Some == self@.contains_key(k@),
            r matches Some(v) ==> *v == self@[k@],
    {
        match self.position(k) {
            Some(i) => Some(&self.entries[i].1),
            None => None,
        }
    }

    /// Stores `v` under `k`, in place of any value stored there before.
    pub fn insert(&mut self, k: K, v: V)
        requires
            old(self).wf(),
        ensures
            final(self).wf(),
            final(self)@ == old(self)@.insert(k@, v),
    {
        let ghost kv = k@;
        match self.position(&k) {
            Some(i) => {
                self.entries.set(i, (k, v));
                proof {
                    self.lemma_slot(kv, i as int);
                    assert forall|q: K::V| q != kv implies self.has(q) == old(self).has(q) && (
                    self.has(q) ==> self@[q] == old(self)@[q]) by {
                        if old(self).has(q) {
                            let j = choose|j: int| old(self).slot(q, j);
                            old(self).lemma_slot(q, j);
                            assert(self.slot(q, j));
                            self.lemma_slot(q, j);
                        }
                        if self.has(q) {
                            let j = choose|j: int| self.slot(q, j);
                            assert(old(self).slot(q, j));
                        }
                    }
                    assert(self@ =~= old(self)@.insert(kv, v));
                }
            },
            None => {
                self.entries.push((k, v));
                proof {
                    let n = old(self).entries@.len() as int;
                    assert forall|i: int, j: int|
                        0 <= i < j < self.entries@.len() implies #[trigger] self.entries@[i].0@
                        != #[trigger] self.entries@[j].0@ by {
                        if j == n {
                            assert(!old(self).slot(kv, i));
                        } else {
                            assert(old(self).entries@[i].0@ != old(self).entries@[j].0@);
                        }
                    }
                    assert(self.slot(kv, n));
                    self.lemma_slot(kv, n);
                    assert forall|q: K::V| q != kv implies self.has(q) == old(self).has(q) && (
                    self.has(q) ==> self@[q] == old(self)@[q]) by {
                        if old(self).has(q) {
                            let j = choose|j: int| old(self).slot(q, j);
                            old(self).lemma_slot(q, j);
                            assert(self.slot(q, j));
                            self.lemma_slot(q, j);
                        }
                        if self.has(q) {
                            let j = choose|j: int| self.slot(q, j);
                            assert(old(self).slot(q, j));
                        }
                    }
                    assert(self@ =~= old(self)@.insert(kv, v));
                }
            },
        }
    }
}

} // verus!
