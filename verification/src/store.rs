//! A verified association map from `u64` identifiers to records.
//!
//! [`IdMap`] keeps its entries in a vector of key/value pairs with pairwise
//! distinct keys. Contracts speak about two abstractions of it: [`IdMap::seq`],
//! the pairs in insertion order (which the escrow accounting sums over), and
//! [`IdMap::as_map`], the finite map the sequence denotes.

use vstd::prelude::*;
use vstd::pervasive::VecAdditionalExecFns;

verus! {

/// Whether some entry of `s` carries the key `k`.
pub open spec fn seq_has_key<V>(s: Seq<(u64, V)>, k: u64) -> bool {
    exists|i: int| 0 <= i < s.len() && (#[trigger] s[i]).0 == k
}

/// The position of the entry carrying `k`; meaningful only when
/// `seq_has_key(s, k)` holds and keys are distinct.
pub open spec fn seq_index_of<V>(s: Seq<(u64, V)>, k: u64) -> int {
    choose|i: int| 0 <= i < s.len() && (#[trigger] s[i]).0 == k
}

/// An insertion-ordered map from `u64` ids to values, backed by a vector of
/// pairs whose keys are pairwise distinct.
pub struct IdMap<V> {
    pairs: Vec<(u64, V)>,
}

impl<V> IdMap<V> {
    /// The entries in insertion order.
    pub closed spec fn seq(self) -> Seq<(u64, V)> {
        self.pairs@
    }

    /// Keys are pairwise distinct.
    pub closed spec fn wf(self) -> bool {
        forall|i: int, j: int|
            0 <= i < j < self.pairs@.len() ==> (#[trigger] self.pairs@[i]).0 != (
            #[trigger] self.pairs@[j]).0
    }

    /// The finite map the entries denote.
    pub closed spec fn as_map(self) -> Map<u64, V> {
        Map::new(
            |k: u64| seq_has_key(self.pairs@, k),
            |k: u64| self.pairs@[seq_index_of(self.pairs@, k)].1,
        )
    }

    /// In a well-formed map the entry at position `i` is what `as_map` binds
    /// its key to.
    pub proof fn lemma_entry_at(self, i: int)
        requires
            self.wf(),
            0 <= i < self.seq().len(),
        ensures
            self.as_map().contains_key(self.seq()[i].0),
            self.as_map()[self.seq()[i].0] == self.seq()[i].1,
            seq_index_of(self.seq(), self.seq()[i].0) == i,
    {
        let k = self.seq()[i].0;
        assert(seq_has_key(self.seq(), k));
        let j = seq_index_of(self.seq(), k);
        assert(0 <= j < self.seq().len() && self.seq()[j].0 == k);
        if i < j {
            assert(self.seq()[i].0 != self.seq()[j].0);
        } else if j < i {
            assert(self.seq()[j].0 != self.seq()[i].0);
        }
    }

    /// Each key `as_map` knows is carried by exactly one entry.
    pub proof fn lemma_key_lookup(self, k: u64)
        requires
            self.wf(),
            self.as_map().contains_key(k),
        ensures
            0 <= seq_index_of(self.seq(), k) < self.seq().len(),
            self.seq()[seq_index_of(self.seq(), k)] == (k, self.as_map()[k]),
    {
        assert(seq_has_key(self.seq(), k));
        let j = seq_index_of(self.seq(), k);
        assert(0 <= j < self.seq().len() && self.seq()[j].0 == k);
        self.lemma_entry_at(j);
    }

    /// An empty map.
    pub fn new() -> (r: Self)
        ensures
            r.wf(),
            r.seq() == Seq::<(u64, V)>::empty(),
            r.as_map() == Map::<u64, V>::empty(),
    {
        let r = IdMap { pairs: Vec::new() };
        proof {
            assert(r.as_map() =~= Map::<u64, V>::empty());
        }
        r
    }

    /// How many entries the map holds.
    pub fn len(&self) -> (n: usize)
        ensures
            n == self.seq().len(),
    {
        self.pairs.len()
    }

    /// Whether `k` is bound.
    #[verifier::loop_isolation(false)]
    pub fn contains_key(&self, k: u64) -> (r: bool)
        ensures
            r == self.as_map().contains_key(k),
    {
        let mut i: usize = 0;
        while i < self.pairs.len()
            invariant
                0 <= i <= self.pairs@.len(),
                forall|j: int| 0 <= j < i ==> (#[trigger] self.pairs@[j]).0 != k,
            decreases self.pairs@.len() - i,
        {
            if self.pairs[i].0 == k {
                proof {
                    assert(seq_has_key(self.pairs@, k));
                }
                return true;
            }
            i += 1;
        }
        proof {
            assert(!seq_has_key(self.pairs@, k));
        }
        false
    }
}

impl<V: Copy> IdMap<V> {
    /// The value bound to `k`, if any.
    #[verifier::loop_isolation(false)]
    pub fn get(&self, k: u64) -> (r: Option<V>)
        requires
            self.wf(),
        ensures
            match r {
                Some(v) => self.as_map().contains_key(k) && self.as_map()[k] == v,
                None => !self.as_map().contains_key(k),
            },
    {
        let mut i: usize = 0;
        while i < self.pairs.len()
            invariant
                0 <= i <= self.pairs@.len(),
                forall|j: int| 0 <= j < i ==> (#[trigger] self.pairs@[j]).0 != k,
            decreases self.pairs@.len() - i,
        {
            if self.pairs[i].0 == k {
                proof {
                    self.lemma_entry_at(i as int);
                }
                return Some(self.pairs[i].1);
            }
            i += 1;
        }
        proof {
            assert(!seq_has_key(self.pairs@, k));
        }
        None
    }

    /// The entry at position `i` of the insertion order.
    pub fn entry_at(&self, i: usize) -> (r: (u64, V))
        requires
            i < self.seq().len(),
        ensures
            r == self.seq()[i as int],
    {
        self.pairs[i]
    }

    /// Binds the fresh key `k` to `v`, appending the entry.
    pub fn insert(&mut self, k: u64, v: V)
        requires
            old(self).wf(),
            !old(self).as_map().contains_key(k),
        ensures
            final(self).wf(),
            final(self).seq() == old(self).seq().push((k, v)),
            final(self).as_map() == old(self).as_map().insert(k, v),
    {
        proof {
            assert(!seq_has_key(old(self).seq(), k));
        }
        self.pairs.push((k, v));
        proof {
            let s0 = old(self).seq();
            let s1 = self.seq();
            assert(s1 == s0.push((k, v)));
            assert forall|i: int, j: int| 0 <= i < j < s1.len() implies (#[trigger] s1[i]).0 != (
            #[trigger] s1[j]).0 by {
                if j < s0.len() {
                    assert(s0[i].0 != s0[j].0);
                } else {
                    assert(s1[j] == (k, v));
                    assert(s1[i] == s0[i]);
                }
            }
            assert forall|k2: u64|
                self.as_map().contains_key(k2) == old(self).as_map().insert(
                    k,
                    v,
                ).contains_key(k2) by {
                if k2 == k {
                    assert(s1[s0.len() as int].0 == k);
                    assert(seq_has_key(s1, k));
                } else {
                    if seq_has_key(s1, k2) {
                        let i = choose|i: int| 0 <= i < s1.len() && (#[trigger] s1[i]).0 == k2;
                        assert(i < s0.len() && s0[i].0 == k2);
                        assert(seq_has_key(s0, k2));
                    }
                    if seq_has_key(s0, k2) {
                        let i = choose|i: int| 0 <= i < s0.len() && (#[trigger] s0[i]).0 == k2;
                        assert(s1[i].0 == k2);
                        assert(seq_has_key(s1, k2));
                    }
                }
            }
            assert forall|k2: u64| #[trigger]
                self.as_map().contains_key(k2) implies self.as_map()[k2] == old(
                self,
            ).as_map().insert(k, v)[k2] by {
                let i = seq_index_of(s1, k2);
                assert(0 <= i < s1.len() && s1[i].0 == k2);
                self.lemma_entry_at(i);
                if k2 == k {
                    if i < s0.len() {
                        assert(s0[i].0 == k);
                        assert(seq_has_key(s0, k));
                    }
                    assert(i == s0.len());
                    assert(self.as_map()[k2] == v);
                } else {
                    assert(i < s0.len());
                    old(self).lemma_entry_at(i);
                    assert(self.as_map()[k2] == s0[i].1);
                }
            }
            assert(self.as_map() =~= old(self).as_map().insert(k, v));
        }
    }

    /// Rebinds the existing key `k` to `v`, in place.
    #[verifier::loop_isolation(false)]
    pub fn update(&mut self, k: u64, v: V)
        requires
            old(self).wf(),
            old(self).as_map().contains_key(k),
        ensures
            final(self).wf(),
            final(self).seq() == old(self).seq().update(seq_index_of(old(self).seq(), k), (k, v)),
            final(self).as_map() == old(self).as_map().insert(k, v),
    {
        proof {
            old(self).lemma_key_lookup(k);
        }
        let ghost s0 = old(self).seq();
        let ghost pos = seq_index_of(old(self).seq(), k);
        let mut i: usize = 0;
        while i < self.pairs.len()
            invariant
                *self == *old(self),
                0 <= i <= self.pairs@.len(),
                forall|j: int| 0 <= j < i ==> (#[trigger] self.pairs@[j]).0 != k,
            decreases self.pairs@.len() - i,
        {
            if self.pairs[i].0 == k {
                proof {
                    old(self).lemma_entry_at(i as int);
                    assert(i as int == pos);
                }
                self.pairs.set(i, (k, v));
                proof {
                    let s1 = self.seq();
                    assert(s1 == s0.update(pos, (k, v)));
                    assert forall|a: int, b: int| 0 <= a < b < s1.len() implies (
                    #[trigger] s1[a]).0 != (#[trigger] s1[b]).0 by {
                        assert(s0[a].0 != s0[b].0);
                        assert(s1[a].0 == s0[a].0 && s1[b].0 == s0[b].0);
                    }
                    assert forall|k2: u64|
                        self.as_map().contains_key(k2) == old(self).as_map().insert(
                            k,
                            v,
                        ).contains_key(k2) by {
                        if seq_has_key(s1, k2) {
                            let a = choose|a: int| 0 <= a < s1.len() && (#[trigger] s1[a]).0 == k2;
                            assert(s0[a].0 == k2);
                            assert(seq_has_key(s0, k2));
                        }
                        if seq_has_key(s0, k2) {
                            let a = choose|a: int| 0 <= a < s0.len() && (#[trigger] s0[a]).0 == k2;
                            assert(s1[a].0 == k2);
                            assert(seq_has_key(s1, k2));
                        }
                    }
                    assert forall|k2: u64| #[trigger]
                        self.as_map().contains_key(k2) implies self.as_map()[k2] == old(
                        self,
                    ).as_map().insert(k, v)[k2] by {
                        let a = seq_index_of(s1, k2);
                        assert(0 <= a < s1.len() && s1[a].0 == k2);
                        self.lemma_entry_at(a);
                        if k2 == k {
                            if a != pos {
                                assert(s0[a].0 == k && s0[pos].0 == k);
                                assert(false);
                            }
                            assert(self.as_map()[k2] == v);
                        } else {
                            assert(a != pos);
                            assert(s1[a] == s0[a]);
                            old(self).lemma_entry_at(a);
                        }
                    }
                    assert(self.as_map() =~= old(self).as_map().insert(k, v));
                }
                return ;
            }
            i += 1;
        }
        proof {
            assert(self.pairs@[pos].0 == k);
            assert(false);
        }
    }

    /// Binds `k` to `v` whether or not `k` is already bound. Makes no promise
    /// about the insertion order.
    pub fn upsert(&mut self, k: u64, v: V)
        requires
            old(self).wf(),
        ensures
            final(self).wf(),
            final(self).as_map() == old(self).as_map().insert(k, v),
    {
        if self.contains_key(k) {
            self.update(k, v);
        } else {
            self.insert(k, v);
        }
    }

    /// Unbinds the existing key `k`, closing the gap in the order.
    #[verifier::loop_isolation(false)]
    pub fn remove(&mut self, k: u64)
        requires
            old(self).wf(),
            old(self).as_map().contains_key(k),
        ensures
            final(self).wf(),
            final(self).seq() == old(self).seq().remove(seq_index_of(old(self).seq(), k)),
            final(self).as_map() == old(self).as_map().remove(k),
    {
        proof {
            old(self).lemma_key_lookup(k);
        }
        let ghost s0 = old(self).seq();
        let ghost pos = seq_index_of(old(self).seq(), k);
        let mut i: usize = 0;
        while i < self.pairs.len()
            invariant
                *self == *old(self),
                0 <= i <= self.pairs@.len(),
                forall|j: int| 0 <= j < i ==> (#[trigger] self.pairs@[j]).0 != k,
            decreases self.pairs@.len() - i,
        {
            if self.pairs[i].0 == k {
                proof {
                    old(self).lemma_entry_at(i as int);
                    assert(i as int == pos);
                }
                self.pairs.remove(i);
                proof {
                    let s1 = self.seq();
                    assert(s1 == s0.remove(pos));
                    assert forall|a: int, b: int| 0 <= a < b < s1.len() implies (
                    #[trigger] s1[a]).0 != (#[trigger] s1[b]).0 by {
                        let a0 = if a < pos { a } else { a + 1 };
                        let b0 = if b < pos { b } else { b + 1 };
                        assert(s1[a] == s0[a0] && s1[b] == s0[b0]);
                        assert(s0[a0].0 != s0[b0].0);
                    }
                    assert forall|k2: u64|
                        self.as_map().contains_key(k2) == old(self).as_map().remove(
                            k,
                        ).contains_key(k2) by {
                        if seq_has_key(s1, k2) {
                            let a = choose|a: int| 0 <= a < s1.len() && (#[trigger] s1[a]).0 == k2;
                            let a0 = if a < pos { a } else { a + 1 };
                            assert(s0[a0].0 == k2);
                            assert(seq_has_key(s0, k2));
                            if k2 == k {
                                assert(s0[a0].0 == s0[pos].0 && a0 != pos);
                                assert(false);
                            }
                        }
                        if k2 != k && seq_has_key(s0, k2) {
                            let a0 = choose|a0: int|
                                0 <= a0 < s0.len() && (#[trigger] s0[a0]).0 == k2;
                            if a0 < pos {
                                assert(s1[a0].0 == k2);
                            } else {
                                assert(a0 != pos);
                                assert(s1[a0 - 1].0 == k2);
                            }
                            assert(seq_has_key(s1, k2));
                        }
                    }
                    assert forall|k2: u64| #[trigger]
                        self.as_map().contains_key(k2) implies self.as_map()[k2] == old(
                        self,
                    ).as_map().remove(k)[k2] by {
                        let a = seq_index_of(s1, k2);
                        assert(0 <= a < s1.len() && s1[a].0 == k2);
                        self.lemma_entry_at(a);
                        let a0 = if a < pos { a } else { a + 1 };
                        assert(s1[a] == s0[a0]);
                        old(self).lemma_entry_at(a0);
                    }
                    assert(self.as_map() =~= old(self).as_map().remove(k));
                }
                return ;
            }
            i += 1;
        }
        proof {
            assert(self.pairs@[pos].0 == k);
            assert(false);
        }
    }

    /// A copy of the map, entry for entry.
    #[verifier::loop_isolation(false)]
    pub fn duplicate(&self) -> (r: Self)
        ensures
            r.seq() == self.seq(),
            r.as_map() == self.as_map(),
            r.wf() == self.wf(),
    {
        let mut out: Vec<(u64, V)> = Vec::new();
        let mut i: usize = 0;
        while i < self.pairs.len()
            invariant
                0 <= i <= self.pairs@.len(),
                out@ == self.pairs@.subrange(0, i as int),
            decreases self.pairs@.len() - i,
        {
            out.push(self.pairs[i]);
            i += 1;
        }
        proof {
            assert(out@ =~= self.pairs@);
        }
        IdMap { pairs: out }
    }
}

} // verus!
