//! A map from string keys to values, kept as a list of entries with distinct
//! keys in insertion order.

use vstd::prelude::*;
use crate::chars::str_eq;

verus! {

pub struct KeyedMap<V> {
    pub entries: Vec<(String, V)>,
}

impl<V> KeyedMap<V> {
    /// Keys are distinct.
    pub open spec fn wf(&self) -> bool {
        forall|i: int, j: int|
            0 <= i < j < self.entries@.len() ==> #[trigger] self.entries@[i].0@
                != #[trigger] self.entries@[j].0@
    }

    pub open spec fn has_key(&self, k: Seq<char>) -> bool {
        exists|i: int| 0 <= i < self.entries@.len() && #[trigger] self.entries@[i].0@ == k
    }

    pub open spec fn index_of(&self, k: Seq<char>) -> int {
        choose|i: int| 0 <= i < self.entries@.len() && #[trigger] self.entries@[i].0@ == k
    }

    /// The map the entries stand for.
    pub open spec fn view_map(&self) -> Map<Seq<char>, V> {
        Map::new(|k: Seq<char>| self.has_key(k), |k: Seq<char>| self.entries@[self.index_of(k)].1)
    }

    pub fn new() -> (m: Self)
        ensures
            m.wf(),
            m.view_map() == Map::<Seq<char>, V>::empty(),
    {
        let m = KeyedMap { entries: Vec::new() };
        assert(m.view_map() =~= Map::<Seq<char>, V>::empty());
        m
    }

    fn find(&self, key: &str) -> (found: Option<usize>)
        requires
            self.wf(),
        ensures
            match found {
                Some(i) => i < self.entries@.len() && self.entries@[i as int].0@ == key@
                    && self.has_key(key@) && self.index_of(key@) == i,
                None => !self.has_key(key@),
            },
    {
        let mut i: usize = 0;
        while i < self.entries.len()
            invariant
                i <= self.entries@.len(),
                self.wf(),
                forall|k: int| 0 <= k < i ==> #[trigger] self.entries@[k].0@ != key@,
            decreases self.entries.len() - i,
        {
            if str_eq(self.entries[i].0.as_str(), key) {
                let ghost j = self.index_of(key@);
                assert(self.entries@[i as int].0@ == key@);
                assert(self.has_key(key@));
                assert(j == i) by {
                    if j != i {
                        if j < i {
                            assert(self.entries@[j].0@ != self.entries@[i as int].0@);
                        } else {
                            assert(self.entries@[i as int].0@ != self.entries@[j].0@);
                        }
                    }
                }
                return Some(i);
            }
            i = i + 1;
        }
        None
    }

    pub fn contains_key(&self, key: &str) -> (b: bool)
        requires
            self.wf(),
        ensures
            b == self.view_map().contains_key(key@),
    {
        self.find(key).is_some()
    }

    pub fn get(&self, key: &str) -> (v: Option<&V>)
        requires
            self.wf(),
        ensures
            match v {
                Some(x) => self.view_map().contains_key(key@) && *x == self.view_map()[key@],
                None => !self.view_map().contains_key(key@),
            },
    {
        match self.find(key) {
            Some(i) => Some(&self.entries[i].1),
            None => None,
        }
    }

    pub fn is_empty(&self) -> (b: bool)
        ensures
            b == (self.view_map() == Map::<Seq<char>, V>::empty()),
    {
        if self.entries.len() == 0 {
            assert(self.view_map() =~= Map::<Seq<char>, V>::empty());
            true
        } else {
            assert(self.view_map().contains_key(self.entries@[0].0@));
            false
        }
    }

    pub fn len(&self) -> (n: usize)
        requires
            self.wf(),
        ensures
            n == self.entries@.len(),
    {
        self.entries.len()
    }

    /// Sets the value of `key` (adding the key when it is new).
    pub fn insert(&mut self, key: String, value: V)
        requires
            old(self).wf(),
        ensures
            final(self).wf(),
            final(self).view_map() == old(self).view_map().insert(key@, value),
    {
        let ghost k = key@;
        match self.find(key.as_str()) {
            Some(i) => {
                let ghost before = self.entries@;
                self.entries.set(i, (key, value));
                assert(self.wf()) by {
                    assert forall|a: int, b: int|
                        0 <= a < b < self.entries@.len() implies #[trigger] self.entries@[a].0@
                        != #[trigger] self.entries@[b].0@ by {
                        assert(before[a].0@ != before[b].0@);
                    }
                }
                assert(self.view_map() =~= old(self).view_map().insert(k, value)) by {
                    assert forall|q: Seq<char>| #[trigger]
                        self.view_map().contains_key(q) implies old(
                        self,
                    ).view_map().insert(k, value).contains_key(q) by {
                        let j = choose|j: int|
                            0 <= j < self.entries@.len() && #[trigger] self.entries@[j].0@ == q;
                        if j != i {
                            assert(before[j].0@ == q);
                        }
                    }
                    assert forall|q: Seq<char>| #[trigger]
                        old(self).view_map().insert(k, value).contains_key(q) implies self.view_map().contains_key(q) by {
                        if q == k {
                            assert(self.entries@[i as int].0@ == q);
                        } else {
                            let j = choose|j: int| 0 <= j < before.len() && #[trigger] before[j].0@ == q;
                            assert(self.entries@[j].0@ == q);
                        }
                    }
                    assert forall|q: Seq<char>| #[trigger]
                        self.view_map().contains_key(q) implies self.view_map()[q] == old(
                        self,
                    ).view_map().insert(k, value)[q] by {
                        let j = self.index_of(q);
                        if q == k {
                            if j != i {
                                if j < i {
                                    assert(self.entries@[j].0@ != self.entries@[i as int].0@);
                                } else {
                                    assert(self.entries@[i as int].0@ != self.entries@[j].0@);
                                }
                            }
                        } else {
                            let oj = old(self).index_of(q);
                            assert(before[j].0@ == q);
                            if oj != j {
                                if oj < j {
                                    assert(before[oj].0@ != before[j].0@);
                                } else {
                                    assert(before[j].0@ != before[oj].0@);
                                }
                            }
                        }
                    }
                }
            },
            None => {
                let ghost before = self.entries@;
                self.entries.push((key, value));
                let n = self.entries.len() - 1;
                assert(self.wf()) by {
                    assert forall|a: int, b: int|
                        0 <= a < b < self.entries@.len() implies #[trigger] self.entries@[a].0@
                        != #[trigger] self.entries@[b].0@ by {
                        if b < n {
                            assert(before[a].0@ != before[b].0@);
                        } else {
                            assert(before[a].0@ == self.entries@[a].0@);
                        }
                    }
                }
                assert(self.view_map() =~= old(self).view_map().insert(k, value)) by {
                    assert forall|q: Seq<char>| #[trigger]
                        self.view_map().contains_key(q) implies old(
                        self,
                    ).view_map().insert(k, value).contains_key(q) by {
                        let j = choose|j: int|
                            0 <= j < self.entries@.len() && #[trigger] self.entries@[j].0@ == q;
                        if j < n {
                            assert(before[j].0@ == q);
                        }
                    }
                    assert forall|q: Seq<char>| #[trigger]
                        old(self).view_map().insert(k, value).contains_key(q) implies self.view_map().contains_key(q) by {
                        if q == k {
                            assert(self.entries@[n as int].0@ == q);
                        } else {
                            let j = choose|j: int| 0 <= j < before.len() && #[trigger] before[j].0@ == q;
                            assert(self.entries@[j].0@ == q);
                        }
                    }
                    assert forall|q: Seq<char>| #[trigger]
                        self.view_map().contains_key(q) implies self.view_map()[q] == old(
                        self,
                    ).view_map().insert(k, value)[q] by {
                        let j = self.index_of(q);
                        if q == k {
                            if j != n {
                                assert(before[j].0@ == q);
                            }
                        } else {
                            let oj = old(self).index_of(q);
                            assert(j != n);
                            assert(before[j].0@ == q);
                            if oj != j {
                                if oj < j {
                                    assert(before[oj].0@ != before[j].0@);
                                } else {
                                    assert(before[j].0@ != before[oj].0@);
                                }
                            }
                        }
                    }
                }
            },
        }
    }

    /// Removes `key`, returning its value if it was there.
    pub fn remove(&mut self, key: &str) -> (removed: Option<V>)
        requires
            old(self).wf(),
        ensures
            final(self).wf(),
            final(self).view_map() == old(self).view_map().remove(key@),
            match removed {
                Some(v) => old(self).view_map().contains_key(key@) && v == old(self).view_map()[key@],
                None => !old(self).view_map().contains_key(key@),
            },
    {
        match self.find(key) {
            Some(i) => {
                let ghost before = self.entries@;
                let (_k, v) = self.entries.remove(i);
                assert(self.wf()) by {
                    assert forall|a: int, b: int|
                        0 <= a < b < self.entries@.len() implies #[trigger] self.entries@[a].0@
                        != #[trigger] self.entries@[b].0@ by {
                        let oa = if a < i { a } else { a + 1 };
                        let ob = if b < i { b } else { b + 1 };
                        assert(before[oa].0@ != before[ob].0@);
                    }
                }
                assert(self.view_map() =~= old(self).view_map().remove(key@)) by {
                    assert forall|q: Seq<char>| #[trigger]
                        self.view_map().contains_key(q) implies old(self).view_map().remove(
                        key@,
                    ).contains_key(q) by {
                        let j = choose|j: int|
                            0 <= j < self.entries@.len() && #[trigger] self.entries@[j].0@ == q;
                        let oj = if j < i { j } else { j + 1 };
                        assert(before[oj].0@ == q);
                        assert(before[i as int].0@ != before[oj].0@ || oj == i);
                    }
                    assert forall|q: Seq<char>| #[trigger]
                        old(self).view_map().remove(key@).contains_key(q) implies self.view_map().contains_key(q) by {
                        let oj = choose|j: int| 0 <= j < before.len() && #[trigger] before[j].0@ == q;
                        assert(oj != i);
                        let j = if oj < i { oj } else { oj - 1 };
                        assert(self.entries@[j].0@ == q);
                    }
                    assert forall|q: Seq<char>| #[trigger]
                        self.view_map().contains_key(q) implies self.view_map()[q] == old(
                        self,
                    ).view_map().remove(key@)[q] by {
                        let j = self.index_of(q);
                        let oj = if j < i { j } else { j + 1 };
                        let ooj = old(self).index_of(q);
                        assert(before[oj].0@ == q);
                        if ooj != oj {
                            if ooj < oj {
                                assert(before[ooj].0@ != before[oj].0@);
                            } else {
                                assert(before[oj].0@ != before[ooj].0@);
                            }
                        }
                    }
                }
                Some(v)
            },
            None => {
                assert(self.view_map() =~= old(self).view_map().remove(key@));
                None
            },
        }
    }
}

} // verus!
