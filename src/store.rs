//! A collection of entities keyed by identifier, with no key held twice.

use vstd::prelude::*;
use crate::json::str_eq;

verus! {

/// Whether no two entries share a key.
pub open spec fn keys_distinct<T>(s: Seq<(String, T)>) -> bool {
    forall|i: int, j: int| 0 <= i < j < s.len() ==> (#[trigger] s[i]).0@ != (#[trigger] s[j]).0@
}

/// The mapping from key to entity model that a sequence of entries holds.
pub open spec fn map_of<T: View>(s: Seq<(String, T)>) -> Map<Seq<char>, T::V>
    decreases s.len(),
{
    if s.len() == 0 {
        Map::empty()
    } else {
        map_of(s.drop_last()).insert(s.last().0@, s.last().1@)
    }
}

/// Every key of the mapping comes from an entry, and every entry is in it.
pub proof fn lemma_map_of<T: View>(s: Seq<(String, T)>)
    requires
        keys_distinct(s),
    ensures
        forall|k: Seq<char>| #[trigger] map_of(s).contains_key(k) <==> exists|i: int| 0 <= i < s.len() && s[i].0@ == k,
        forall|i: int| 0 <= i < s.len() ==> #[trigger] map_of(s).contains_key(s[i].0@) && map_of(s)[s[i].0@] == s[i].1@,
    decreases s.len(),
{
    if s.len() > 0 {
        let p = s.drop_last();
        assert(keys_distinct(p));
        lemma_map_of(p);
        assert forall|k: Seq<char>| #[trigger] map_of(s).contains_key(k) <==> exists|i: int| 0 <= i < s.len() && s[i].0@ == k by {
            if map_of(s).contains_key(k) {
                if k == s.last().0@ {
                    assert(s[s.len() - 1].0@ == k);
                } else {
                    assert(map_of(p).contains_key(k));
                    let i = choose|i: int| 0 <= i < p.len() && p[i].0@ == k;
                    assert(s[i] == p[i]);
                }
            }
            if exists|i: int| 0 <= i < s.len() && s[i].0@ == k {
                let i = choose|i: int| 0 <= i < s.len() && s[i].0@ == k;
                if i < s.len() - 1 {
                    assert(p[i] == s[i]);
                    assert(map_of(p).contains_key(k));
                }
            }
        }
        assert forall|i: int| 0 <= i < s.len() implies #[trigger] map_of(s).contains_key(s[i].0@) && map_of(s)[s[i].0@] == s[i].1@ by {
            if i < s.len() - 1 {
                assert(p[i] == s[i]);
                assert(map_of(p).contains_key(p[i].0@));
                assert(s[i].0@ != s[s.len() - 1].0@);
            }
        }
    }
}

/// Entities keyed by identifier.
#[derive(Debug)]
pub struct KeyedStore<T> {
    pub entries: Vec<(String, T)>,
}

impl<T: View> View for KeyedStore<T> {
    type V = Map<Seq<char>, T::V>;

    open spec fn view(&self) -> Map<Seq<char>, T::V> {
        map_of(self.entries@)
    }
}

impl<T: View> KeyedStore<T> {
    /// Well-formed: no key is held twice.
    pub open spec fn wf(&self) -> bool {
        keys_distinct(self.entries@)
    }

    pub fn new() -> (r: Self)
        ensures
            r.wf(),
            r.entries@.len() == 0,
            r@ == Map::<Seq<char>, T::V>::empty(),
    {
        KeyedStore { entries: Vec::new() }
    }

    pub fn len(&self) -> (r: usize)
        requires
            self.wf(),
        ensures
            r == self.entries@.len(),
            r == self@.dom().len(),
    {
        proof {
            self.lemma_len();
        }
        self.entries.len()
    }

    proof fn lemma_len(&self)
        requires
            self.wf(),
        ensures
            self@.dom().len() == self.entries@.len(),
            self@.dom().finite(),
        decreases self.entries@.len(),
    {
        lemma_dom_len(self.entries@);
    }

    /// The position of the entry keyed `key`.
    pub fn position(&self, key: &str) -> (r: Option<usize>)
        requires
            self.wf(),
        ensures
            match r {
                Some(i) => i < self.entries@.len() && self.entries@[i as int].0@ == key@,
                None => !self@.contains_key(key@),
            },
    {
        proof {
            lemma_map_of(self.entries@);
        }
        let mut i: usize = 0;
        while i < self.entries.len()
            invariant
                i <= self.entries@.len(),
                forall|j: int| 0 <= j < i ==> (#[trigger] self.entries@[j]).0@ != key@,
            decreases self.entries@.len() - i,
        {
            if str_eq(self.entries[i].0.as_str(), key) {
                return Some(i);
            }
            i += 1;
        }
        None
    }

    /// The entity keyed `key`.
    pub fn get(&self, key: &str) -> (r: Option<&T>)
        requires
            self.wf(),
        ensures
            match r {
                Some(v) => self@.contains_key(key@) && self@[key@] == v@,
                None => !self@.contains_key(key@),
            },
    {
        proof {
            lemma_map_of(self.entries@);
        }
        match self.position(key) {
            Some(i) => {
                proof {
                    assert(self@.contains_key(self.entries@[i as int].0@));
                }
                Some(&self.entries[i].1)
            },
            None => None,
        }
    }

    pub fn contains_key(&self, key: &str) -> (r: bool)
        requires
            self.wf(),
        ensures
            r == self@.contains_key(key@),
    {
        proof {
            lemma_map_of(self.entries@);
        }
        self.position(key).is_some()
    }

    /// Puts `value` under `key`, replacing what was there.
    pub fn insert(&mut self, key: String, value: T)
        requires
            old(self).wf(),
        ensures
            final(self).wf(),
            final(self)@ == old(self)@.insert(key@, value@),
    {
        let ghost k = key@;
        let ghost v = value@;
        let ghost s0 = self.entries@;
        proof {
            lemma_map_of(s0);
        }
        match self.position(key.as_str()) {
            Some(i) => {
                self.entries.set(i, (key, value));
                let ghost s1 = self.entries@;
                proof {
                    assert(keys_distinct(s1)) by {
                        assert forall|a: int, b: int| 0 <= a < b < s1.len() implies (#[trigger] s1[a]).0@ != (#[trigger] s1[b]).0@ by {
                            assert(s0[i as int].0@ == k);
                            if a != i && b != i {
                                assert(s1[a] == s0[a] && s1[b] == s0[b]);
                            } else if a == i {
                                assert(s1[b] == s0[b]);
                            } else {
                                assert(s1[a] == s0[a]);
                            }
                        }
                    }
                    lemma_map_of(s1);
                    assert(map_of(s1) =~= map_of(s0).insert(k, v)) by {
                        assert forall|key2: Seq<char>| #[trigger] map_of(s1).contains_key(key2) <==> map_of(s0).insert(k, v).contains_key(key2) by {
                            if map_of(s0).contains_key(key2) && key2 != k {
                                let j = choose|j: int| 0 <= j < s0.len() && s0[j].0@ == key2;
                                assert(s1[j] == s0[j]);
                            }
                            if map_of(s1).contains_key(key2) && key2 != k {
                                let j = choose|j: int| 0 <= j < s1.len() && s1[j].0@ == key2;
                                assert(s1[j] == s0[j]);
                            }
                            assert(s1[i as int].0@ == k);
                        }
                        assert forall|key2: Seq<char>| #[trigger] map_of(s1).contains_key(key2) implies map_of(s1)[key2] == map_of(s0).insert(k, v)[key2] by {
                            let j = choose|j: int| 0 <= j < s1.len() && s1[j].0@ == key2;
                            if j != i {
                                assert(s1[j] == s0[j]);
                            }
                        }
                    }
                }
            },
            None => {
                let ghost s0 = self.entries@;
                self.entries.push((key, value));
                proof {
                    assert(self.entries@.drop_last() == s0);
                    assert forall|a: int, b: int| 0 <= a < b < self.entries@.len() implies (#[trigger] self.entries@[a]).0@ != (#[trigger] self.entries@[b]).0@ by {
                        if b == s0.len() {
                            assert(self.entries@[a] == s0[a]);
                        } else {
                            assert(self.entries@[a] == s0[a] && self.entries@[b] == s0[b]);
                        }
                    }
                }
            },
        }
    }

    /// Takes out the entry keyed `key`, if any.
    pub fn remove(&mut self, key: &str)
        requires
            old(self).wf(),
        ensures
            final(self).wf(),
            final(self)@ == old(self)@.remove(key@),
    {
        let ghost s0 = self.entries@;
        proof {
            lemma_map_of(s0);
        }
        match self.position(key) {
            Some(i) => {
                let _ = self.entries.remove(i);
                let ghost s1 = self.entries@;
                proof {
                    assert(s1 == s0.remove(i as int));
                    assert forall|a: int, b: int| 0 <= a < b < s1.len() implies (#[trigger] s1[a]).0@ != (#[trigger] s1[b]).0@ by {
                        let a0 = if a < i { a } else { a + 1 };
                        let b0 = if b < i { b } else { b + 1 };
                        assert(s1[a] == s0[a0] && s1[b] == s0[b0]);
                    }
                    lemma_map_of(s1);
                    assert(map_of(s1) =~= map_of(s0).remove(key@)) by {
                        assert forall|key2: Seq<char>| #[trigger] map_of(s1).contains_key(key2) <==> map_of(s0).remove(key@).contains_key(key2) by {
                            if map_of(s1).contains_key(key2) {
                                let j = choose|j: int| 0 <= j < s1.len() && s1[j].0@ == key2;
                                let j0 = if j < i { j } else { j + 1 };
                                assert(s1[j] == s0[j0]);
                                assert(j0 != i);
                            }
                            if map_of(s0).remove(key@).contains_key(key2) {
                                let j = choose|j: int| 0 <= j < s0.len() && s0[j].0@ == key2;
                                assert(j != i);
                                let j1 = if j < i { j } else { j - 1 };
                                assert(s1[j1] == s0[j]);
                            }
                        }
                        assert forall|key2: Seq<char>| #[trigger] map_of(s1).contains_key(key2) implies map_of(s1)[key2] == map_of(s0).remove(key@)[key2] by {
                            let j = choose|j: int| 0 <= j < s1.len() && s1[j].0@ == key2;
                            let j0 = if j < i { j } else { j + 1 };
                            assert(s1[j] == s0[j0]);
                        }
                    }
                }
            },
            None => {
                proof {
                    assert(map_of(s0).remove(key@) =~= map_of(s0));
                }
            },
        }
    }

    /// The entities, in the store's order.
    pub fn values(&self) -> (r: Vec<&T>)
        ensures
            r@.len() == self.entries@.len(),
            forall|i: int| 0 <= i < r@.len() ==> *(#[trigger] r@[i]) == self.entries@[i].1,
    {
        let mut out: Vec<&T> = Vec::new();
        let mut i: usize = 0;
        while i < self.entries.len()
            invariant
                i <= self.entries@.len(),
                out@.len() == i,
                forall|j: int| 0 <= j < i ==> *(#[trigger] out@[j]) == self.entries@[j].1,
            decreases self.entries@.len() - i,
        {
            out.push(&self.entries[i].1);
            i += 1;
        }
        out
    }
}

pub proof fn lemma_dom_len<T: View>(s: Seq<(String, T)>)
    requires
        keys_distinct(s),
    ensures
        map_of(s).dom().len() == s.len(),
        map_of(s).dom().finite(),
    decreases s.len(),
{
    if s.len() > 0 {
        let p = s.drop_last();
        assert(keys_distinct(p));
        lemma_dom_len(p);
        lemma_map_of(p);
        assert(!map_of(p).contains_key(s.last().0@)) by {
            if map_of(p).contains_key(s.last().0@) {
                let i = choose|i: int| 0 <= i < p.len() && p[i].0@ == s.last().0@;
                assert(s[i] == p[i]);
            }
        }
    }
}

} // verus!
