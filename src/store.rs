//! A keyed record store: a finite map from structured keys to records,
//! with get / set / has / remove. Keys are compared through their views.
use vstd::prelude::*;
use crate::common::Principal;

verus! {

/// A key type whose executable comparison agrees with equality of views.
pub trait StoreKey: View + Sized {
    fn same_key(&self, other: &Self) -> (r: bool)
        ensures
            r == (self@ == other@);
}

impl StoreKey for u32 {
    fn same_key(&self, other: &u32) -> (r: bool) {
        *self == *other
    }
}

impl StoreKey for Principal {
    fn same_key(&self, other: &Principal) -> (r: bool) {
        *self == *other
    }
}

impl StoreKey for (u32, u32) {
    fn same_key(&self, other: &(u32, u32)) -> (r: bool) {
        self.0 == other.0 && self.1 == other.1
    }
}

impl StoreKey for (u32, Principal) {
    fn same_key(&self, other: &(u32, Principal)) -> (r: bool) {
        self.0 == other.0 && self.1 == other.1
    }
}

impl StoreKey for (Principal, u32) {
    fn same_key(&self, other: &(Principal, u32)) -> (r: bool) {
        self.0 == other.0 && self.1 == other.1
    }
}

impl StoreKey for String {
    fn same_key(&self, other: &String) -> (r: bool) {
        *self == *other
    }
}

/// Records addressed by key; each key appears at most once.
pub struct KeyedStore<K, V> {
    pub entries: Vec<(K, V)>,
}

impl<K: StoreKey, V: View> View for KeyedStore<K, V> {
    type V = Map<K::V, V::V>;

    open spec fn view(&self) -> Map<K::V, V::V> {
        Map::new(
            |k: K::V| self.has_key(k),
            |k: K::V| self.entries@[self.index_of(k)].1@,
        )
    }
}

impl<K: StoreKey, V: View> KeyedStore<K, V> {
    pub open spec fn has_key(&self, k: K::V) -> bool {
        exists|i: int| 0 <= i < self.entries@.len() && self.entries@[i].0@ == k
    }

    pub open spec fn index_of(&self, k: K::V) -> int {
        choose|i: int| 0 <= i < self.entries@.len() && self.entries@[i].0@ == k
    }

    /// No key is stored twice.
    pub open spec fn wf(&self) -> bool {
        forall|i: int, j: int|
            0 <= i < self.entries@.len() && 0 <= j < self.entries@.len() && i != j
                ==> self.entries@[i].0@ != self.entries@[j].0@
    }

    pub proof fn lemma_index(&self, i: int)
        requires
            self.wf(),
            0 <= i < self.entries@.len(),
        ensures
            self.index_of(self.entries@[i].0@) == i,
            self@.contains_key(self.entries@[i].0@),
            self@[self.entries@[i].0@] == self.entries@[i].1@,
    {
        let k = self.entries@[i].0@;
        assert(self.has_key(k));
        let j = self.index_of(k);
        assert(self.entries@[j].0@ == k);
    }

    pub fn new() -> (r: Self)
        ensures
            r.wf(),
            r@ == Map::<K::V, V::V>::empty(),
    {
        let r = KeyedStore { entries: Vec::new() };
        assert(r@ =~= Map::<K::V, V::V>::empty());
        r
    }

    pub fn find(&self, k: &K) -> (r: Option<usize>)
        requires
            self.wf(),
        ensures
            match r {
                Some(i) => {
                    &&& i < self.entries@.len()
                    &&& self.entries@[i as int].0@ == k@
                    &&& self@.contains_key(k@)
                    &&& self@[k@] == self.entries@[i as int].1@
                },
                None => !self@.contains_key(k@),
            },
    {
        let mut i: usize = 0;
        while i < self.entries.len()
            invariant
                self.wf(),
                0 <= i <= self.entries@.len(),
                forall|j: int| 0 <= j < i ==> self.entries@[j].0@ != k@,
            decreases self.entries@.len() - i,
        {
            if self.entries[i].0.same_key(k) {
                proof {
                    self.lemma_index(i as int);
                }
                return Some(i);
            }
            i = i + 1;
        }
        None
    }

    pub fn contains(&self, k: &K) -> (r: bool)
        requires
            self.wf(),
        ensures
            r == self@.contains_key(k@),
    {
        self.find(k).is_some()
    }

    /// The record stored under `k`.
    pub fn get(&self, k: &K) -> (r: Option<&V>)
        requires
            self.wf(),
        ensures
            match r {
                Some(v) => self@.contains_key(k@) && v@ == self@[k@],
                None => !self@.contains_key(k@),
            },
    {
        match self.find(k) {
            Some(i) => Some(&self.entries[i].1),
            None => None,
        }
    }

    /// Stores `v` under `k`, replacing any record there.
    pub fn set(&mut self, k: K, v: V)
        requires
            old(self).wf(),
        ensures
            final(self).wf(),
            final(self)@ == old(self)@.insert(k@, v@),
    {
        let ghost kv = k@;
        let ghost vv = v@;
        match self.find(&k) {
            Some(i) => {
                self.entries.set(i, (k, v));
                proof {
                    let old_s = *old(self);
                    assert forall|a: int, b: int|
                        0 <= a < self.entries@.len() && 0 <= b < self.entries@.len() && a != b
                            implies self.entries@[a].0@ != self.entries@[b].0@ by {
                        if a != i && b != i {
                            assert(self.entries@[a] == old_s.entries@[a]);
                            assert(self.entries@[b] == old_s.entries@[b]);
                        } else if a == i {
                            assert(self.entries@[b] == old_s.entries@[b]);
                        } else {
                            assert(self.entries@[a] == old_s.entries@[a]);
                        }
                    }
                    assert forall|q: K::V| #[trigger] self@.contains_key(q) <==> old_s@.insert(kv, vv).contains_key(q) by {
                        if q != kv {
                            if self.has_key(q) {
                                let j = choose|j: int| 0 <= j < self.entries@.len() && self.entries@[j].0@ == q;
                                assert(old_s.entries@[j] == self.entries@[j]);
                            }
                            if old_s.has_key(q) {
                                let j = choose|j: int| 0 <= j < old_s.entries@.len() && old_s.entries@[j].0@ == q;
                                assert(old_s.entries@[j] == self.entries@[j]);
                            }
                        } else {
                            assert(self.entries@[i as int].0@ == q);
                        }
                    }
                    assert forall|q: K::V| #[trigger] self@.contains_key(q) implies self@[q] == old_s@.insert(kv, vv)[q] by {
                        let j = choose|j: int| 0 <= j < self.entries@.len() && self.entries@[j].0@ == q;
                        self.lemma_index(j);
                        if q != kv {
                            assert(old_s.entries@[j] == self.entries@[j]);
                            old_s.lemma_index(j);
                        } else {
                            assert(j == i);
                        }
                    }
                    assert(self@ =~= old_s@.insert(kv, vv));
                }
            },
            None => {
                self.entries.push((k, v));
                proof {
                    let old_s = *old(self);
                    let n = old_s.entries@.len() as int;
                    assert forall|a: int, b: int|
                        0 <= a < self.entries@.len() && 0 <= b < self.entries@.len() && a != b
                            implies self.entries@[a].0@ != self.entries@[b].0@ by {
                        if a < n && b < n {
                            assert(self.entries@[a] == old_s.entries@[a]);
                            assert(self.entries@[b] == old_s.entries@[b]);
                        } else if a < n {
                            assert(self.entries@[a] == old_s.entries@[a]);
                            assert(old_s.has_key(old_s.entries@[a].0@));
                        } else {
                            assert(self.entries@[b] == old_s.entries@[b]);
                            assert(old_s.has_key(old_s.entries@[b].0@));
                        }
                    }
                    assert forall|q: K::V| #[trigger] self@.contains_key(q) <==> old_s@.insert(kv, vv).contains_key(q) by {
                        if q != kv {
                            if self.has_key(q) {
                                let j = choose|j: int| 0 <= j < self.entries@.len() && self.entries@[j].0@ == q;
                                assert(old_s.entries@[j] == self.entries@[j]);
                            }
                            if old_s.has_key(q) {
                                let j = choose|j: int| 0 <= j < old_s.entries@.len() && old_s.entries@[j].0@ == q;
                                assert(old_s.entries@[j] == self.entries@[j]);
                            }
                        } else {
                            assert(self.entries@[n].0@ == q);
                        }
                    }
                    assert forall|q: K::V| #[trigger] self@.contains_key(q) implies self@[q] == old_s@.insert(kv, vv)[q] by {
                        let j = choose|j: int| 0 <= j < self.entries@.len() && self.entries@[j].0@ == q;
                        self.lemma_index(j);
                        if j < n {
                            assert(old_s.entries@[j] == self.entries@[j]);
                            old_s.lemma_index(j);
                        }
                    }
                    assert(self@ =~= old_s@.insert(kv, vv));
                }
            },
        }
    }

    /// Removes and returns the record stored under `k`.
    pub fn take(&mut self, k: &K) -> (r: Option<V>)
        requires
            old(self).wf(),
        ensures
            final(self).wf(),
            final(self)@ == old(self)@.remove(k@),
            match r {
                Some(v) => old(self)@.contains_key(k@) && v@ == old(self)@[k@],
                None => !old(self)@.contains_key(k@),
            },
    {
        match self.find(k) {
            Some(i) => {
                let (_, v) = self.entries.remove(i);
                proof {
                    let old_s = *old(self);
                    let kv = k@;
                    assert forall|a: int, b: int|
                        0 <= a < self.entries@.len() && 0 <= b < self.entries@.len() && a != b
                            implies self.entries@[a].0@ != self.entries@[b].0@ by {
                        let a2 = if a < i { a } else { a + 1 };
                        let b2 = if b < i { b } else { b + 1 };
                        assert(self.entries@[a] == old_s.entries@[a2]);
                        assert(self.entries@[b] == old_s.entries@[b2]);
                    }
                    assert forall|q: K::V| #[trigger] self@.contains_key(q) <==> old_s@.remove(kv).contains_key(q) by {
                        if self.has_key(q) {
                            let j = choose|j: int| 0 <= j < self.entries@.len() && self.entries@[j].0@ == q;
                            let j2 = if j < i { j } else { j + 1 };
                            assert(self.entries@[j] == old_s.entries@[j2]);
                        }
                        if old_s.has_key(q) && q != kv {
                            let j = choose|j: int| 0 <= j < old_s.entries@.len() && old_s.entries@[j].0@ == q;
                            if j < i {
                                assert(old_s.entries@[j] == self.entries@[j]);
                            } else {
                                assert(j != i);
                                assert(old_s.entries@[j] == self.entries@[j - 1]);
                            }
                        }
                    }
                    assert forall|q: K::V| #[trigger] self@.contains_key(q) implies self@[q] == old_s@.remove(kv)[q] by {
                        let j = choose|j: int| 0 <= j < self.entries@.len() && self.entries@[j].0@ == q;
                        self.lemma_index(j);
                        let j2 = if j < i { j } else { j + 1 };
                        assert(self.entries@[j] == old_s.entries@[j2]);
                        old_s.lemma_index(j2);
                    }
                    assert(self@ =~= old_s@.remove(kv));
                }
                Some(v)
            },
            None => {
                assert(self@ =~= old(self)@.remove(k@));
                None
            },
        }
    }
}

} // verus!
