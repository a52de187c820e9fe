//! An association map keyed by `String`, kept as a vector of pairs with
//! pairwise-distinct keys. Contracts speak of its `Map<Seq<char>, V>` view;
//! the pair sequence itself is also exposed, since listing and searching
//! walk the entries in insertion order.

use vstd::prelude::*;
use crate::text::str_eq;

verus! {

pub struct StrMap<V> {
    pairs: Vec<(String, V)>,
}

impl<V> StrMap<V> {
    /// The entries in insertion order.
    pub closed spec fn spec_pairs(self) -> Seq<(String, V)> {
        self.pairs@
    }

    /// Keys are pairwise distinct.
    pub open spec fn wf(self) -> bool {
        forall|i: int, j: int|
            0 <= i < j < self.spec_pairs().len() ==> #[trigger] self.spec_pairs()[i].0@
                != #[trigger] self.spec_pairs()[j].0@
    }

    /// Whether some entry carries key `k`.
    pub open spec fn spec_has(self, k: Seq<char>) -> bool {
        exists|i: int| 0 <= i < self.spec_pairs().len() && #[trigger] self.spec_pairs()[i].0@ == k
    }
}

impl<V> View for StrMap<V> {
    type V = Map<Seq<char>, V>;

    open spec fn view(&self) -> Map<Seq<char>, V> {
        Map::new(
            |k: Seq<char>| self.spec_has(k),
            |k: Seq<char>|
                {
                    let i = choose|i: int|
                        0 <= i < self.spec_pairs().len() && #[trigger] self.spec_pairs()[i].0@
                            == k;
                    self.spec_pairs()[i].1
                },
        )
    }
}

impl<V> StrMap<V> {
    /// Every entry is in the map view, and under a well-formed map each key's
    /// value is the one its entry carries.
    pub proof fn lemma_entry_in_view(self, i: int)
        requires
            self.wf(),
            0 <= i < self.spec_pairs().len(),
        ensures
            self@.contains_key(self.spec_pairs()[i].0@),
            self@[self.spec_pairs()[i].0@] == self.spec_pairs()[i].1,
    {
        let k = self.spec_pairs()[i].0@;
        assert(self.spec_has(k));
        let j = choose|j: int|
            0 <= j < self.spec_pairs().len() && #[trigger] self.spec_pairs()[j].0@ == k;
        if i != j {
            assert(false);
        }
    }

    pub fn new() -> (r: Self)
        ensures
            r.wf(),
            r@ == Map::<Seq<char>, V>::empty(),
            r.spec_pairs().len() == 0,
    {
        let r = StrMap { pairs: Vec::new() };
        proof {
            assert(r@ =~= Map::<Seq<char>, V>::empty());
        }
        r
    }

    pub fn len(&self) -> (r: usize)
        ensures
            r == self.spec_pairs().len(),
    {
        self.pairs.len()
    }

    pub fn is_empty(&self) -> (r: bool)
        ensures
            r == (self.spec_pairs().len() == 0),
    {
        self.pairs.len() == 0
    }

    /// The entries, for walking in insertion order.
    pub fn entries(&self) -> (r: &Vec<(String, V)>)
        ensures
            r@ == self.spec_pairs(),
    {
        &self.pairs
    }

    /// The index of the entry keyed `k`, if one exists.
    fn index_of(&self, k: &str) -> (r: Option<usize>)
        ensures
            match r {
                Some(i) => i < self.spec_pairs().len() && self.spec_pairs()[i as int].0@ == k@,
                None => !self.spec_has(k@),
            },
    {
        let n = self.pairs.len();
        let mut i: usize = 0;
        while i < n
            invariant
                n == self.spec_pairs().len(),
                i <= n,
                forall|j: int| 0 <= j < i ==> #[trigger] self.spec_pairs()[j].0@ != k@,
            decreases n - i,
        {
            if str_eq(self.pairs[i].0.as_str(), k) {
                return Some(i);
            }
            i += 1;
        }
        None
    }

    pub fn contains_key(&self, k: &str) -> (r: bool)
        requires
            self.wf(),
        ensures
            r == self@.contains_key(k@),
    {
        match self.index_of(k) {
            Some(i) => {
                proof {
                    self.lemma_entry_in_view(i as int);
                }
                true
            },
            None => false,
        }
    }

    pub fn get(&self, k: &str) -> (r: Option<&V>)
        requires
            self.wf(),
        ensures
            match r {
                Some(v) => self@.contains_key(k@) && *v == self@[k@],
                None => !self@.contains_key(k@),
            },
    {
        match self.index_of(k) {
            Some(i) => {
                proof {
                    self.lemma_entry_in_view(i as int);
                }
                Some(&self.pairs[i].1)
            },
            None => None,
        }
    }

    /// Binds `k` to `v`, replacing any earlier binding.
    pub fn insert(&mut self, k: String, v: V)
        requires
            old(self).wf(),
        ensures
            final(self).wf(),
            final(self)@ == old(self)@.insert(k@, v),
            old(self)@.contains_key(k@) ==> final(self).spec_pairs().len() == old(
                self,
            ).spec_pairs().len(),
            !old(self)@.contains_key(k@) ==> final(self).spec_pairs() == old(
                self,
            ).spec_pairs().push((k, v)),
    {
        let ghost old_self = *self;
        match self.index_of(k.as_str()) {
            Some(i) => {
                proof {
                    old_self.lemma_entry_in_view(i as int);
                }
                self.pairs.remove(i);
                self.pairs.insert(i, (k, v));
                proof {
                    assert(self.spec_pairs() =~= old_self.spec_pairs().update(
                        i as int,
                        (k, v),
                    ));
                    assert forall|k2: Seq<char>| self.spec_has(k2) == old_self.spec_has(k2) by {
                        if self.spec_has(k2) {
                            let a = choose|a: int|
                                0 <= a < self.spec_pairs().len()
                                    && #[trigger] self.spec_pairs()[a].0@ == k2;
                            assert(old_self.spec_pairs()[if a == i {
                                a
                            } else {
                                a
                            }].0@ == k2 || old_self.spec_pairs()[i as int].0@ == k2);
                        }
                        if old_self.spec_has(k2) {
                            let a = choose|a: int|
                                0 <= a < old_self.spec_pairs().len()
                                    && #[trigger] old_self.spec_pairs()[a].0@ == k2;
                            if a == i {
                                assert(self.spec_pairs()[i as int].0@ == k2);
                            } else {
                                assert(self.spec_pairs()[a].0@ == k2);
                            }
                        }
                    }
                    assert(self@ =~= old_self@.insert(k@, v));
                }
            },
            None => {
                self.pairs.push((k, v));
                proof {
                    assert forall|k2: Seq<char>|
                        k2 != k@ implies self.spec_has(k2) == old_self.spec_has(k2) by {
                        if k2 != k@ {
                            if self.spec_has(k2) {
                                let a = choose|a: int|
                                    0 <= a < self.spec_pairs().len()
                                        && #[trigger] self.spec_pairs()[a].0@ == k2;
                                assert(a < old_self.spec_pairs().len());
                                assert(old_self.spec_pairs()[a].0@ == k2);
                            }
                            if old_self.spec_has(k2) {
                                let a = choose|a: int|
                                    0 <= a < old_self.spec_pairs().len()
                                        && #[trigger] old_self.spec_pairs()[a].0@ == k2;
                                assert(self.spec_pairs()[a].0@ == k2);
                            }
                        }
                    }
                    assert(self.spec_pairs()[self.spec_pairs().len() - 1].0@ == k@);
                    assert(self.spec_has(k@));
                    assert forall|k2: Seq<char>| #[trigger]
                        self@.contains_key(k2) == old_self@.insert(k@, v).contains_key(k2)
                        && (self@.contains_key(k2) ==> self@[k2] == old_self@.insert(k@, v)[k2]) by {
                        if k2 == k@ {
                            let a = choose|a: int|
                                0 <= a < self.spec_pairs().len()
                                    && #[trigger] self.spec_pairs()[a].0@ == k2;
                            if a < old_self.spec_pairs().len() {
                                assert(old_self.spec_has(k2));
                                assert(false);
                            }
                        } else {
                            if self.spec_has(k2) {
                                let a = choose|a: int|
                                    0 <= a < self.spec_pairs().len()
                                        && #[trigger] self.spec_pairs()[a].0@ == k2;
                                assert(a < old_self.spec_pairs().len());
                                old_self.lemma_entry_in_view(a);
                                self.lemma_entry_in_view(a);
                            }
                        }
                    }
                    assert(self@ =~= old_self@.insert(k@, v));
                }
            },
        }
    }

    /// Drops the binding for `k`, if any.
    pub fn remove(&mut self, k: &str)
        requires
            old(self).wf(),
        ensures
            final(self).wf(),
            final(self)@ == old(self)@.remove(k@),
    {
        let ghost old_self = *self;
        match self.index_of(k) {
            Some(i) => {
                self.pairs.remove(i);
                proof {
                    assert(self.spec_pairs() =~= old_self.spec_pairs().remove(i as int));
                    assert forall|k2: Seq<char>| #[trigger]
                        self@.contains_key(k2) == old_self@.remove(k@).contains_key(k2)
                        && (self@.contains_key(k2) ==> self@[k2] == old_self@.remove(k@)[k2]) by {
                        if self.spec_has(k2) {
                            let a = choose|a: int|
                                0 <= a < self.spec_pairs().len()
                                    && #[trigger] self.spec_pairs()[a].0@ == k2;
                            let b = if a < i {
                                a
                            } else {
                                a + 1
                            };
                            assert(old_self.spec_pairs()[b].0@ == k2);
                            old_self.lemma_entry_in_view(b);
                            self.lemma_entry_in_view(a);
                            assert(k2 != k@);
                        }
                        if k2 != k@ && old_self.spec_has(k2) {
                            let b = choose|b: int|
                                0 <= b < old_self.spec_pairs().len()
                                    && #[trigger] old_self.spec_pairs()[b].0@ == k2;
                            assert(b != i);
                            let a = if b < i {
                                b
                            } else {
                                b - 1
                            };
                            assert(self.spec_pairs()[a].0@ == k2);
                        }
                    }
                    assert(self@ =~= old_self@.remove(k@));
                }
            },
            None => {
                proof {
                    assert forall|k2: Seq<char>|
                        self@.contains_key(k2) == old_self@.remove(k@).contains_key(k2) by {}
                    assert(self@ =~= old_self@.remove(k@));
                }
            },
        }
    }
}

} // verus!
