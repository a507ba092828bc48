//! A hash-keyed map backed by a vector of pairs, the shared substrate of the
//! consensus stores. Its view is a `Map` from hash to value; keys stay
//! pairwise distinct.
use vstd::prelude::*;
use vstd::pervasive::VecAdditionalExecFns;
use crate::errors::StoreError;
use crate::hash::BlockHash;

verus! {

/// Whether `s` holds an entry with key `k`.
pub open spec fn pairs_have_key<V>(s: Seq<(BlockHash, V)>, k: BlockHash) -> bool {
    exists|i: int| 0 <= i < s.len() && s[i].0 == k
}

/// The index of the entry with key `k`.
pub open spec fn pair_index_of<V>(s: Seq<(BlockHash, V)>, k: BlockHash) -> int {
    choose|i: int| 0 <= i < s.len() && s[i].0 == k
}

/// A key-to-value store over block hashes.
pub struct HashKeyMap<V> {
    pairs: Vec<(BlockHash, V)>,
}

impl<V> View for HashKeyMap<V> {
    type V = Map<BlockHash, V>;

    closed spec fn view(&self) -> Map<BlockHash, V> {
        Map::new(
            |k: BlockHash| pairs_have_key(self.pairs@, k),
            |k: BlockHash| self.pairs@[pair_index_of(self.pairs@, k)].1,
        )
    }
}

impl<V> HashKeyMap<V> {
    /// Keys are pairwise distinct.
    pub closed spec fn wf(&self) -> bool {
        forall|i: int, j: int|
            0 <= i < j < self.pairs@.len() ==> self.pairs@[i].0 != self.pairs@[j].0
    }

    /// An empty map.
    pub fn new() -> (r: HashKeyMap<V>)
        ensures
            r.wf(),
            r@ == Map::<BlockHash, V>::empty(),
    {
        let r = HashKeyMap { pairs: Vec::new() };
        proof {
            assert(r@ =~= Map::<BlockHash, V>::empty());
        }
        r
    }

    /// The index holding key `h`, if any.
    fn find(&self, h: &BlockHash) -> (r: Option<usize>)
        requires
            self.wf(),
        ensures
            match r {
                Some(i) => i < self.pairs@.len() && self.pairs@[i as int].0 == *h
                    && self@.contains_key(*h) && self@[*h] == self.pairs@[i as int].1,
                None => !self@.contains_key(*h),
            },
    {
        let n = self.pairs.len();
        let mut i: usize = 0;
        while i < n
            invariant
                n == self.pairs@.len(),
                i <= n,
                self.wf(),
                forall|j: int| 0 <= j < i ==> self.pairs@[j].0 != *h,
            decreases n - i,
        {
            if self.pairs[i].0.eq_hash(h) {
                proof {
                    let w = pair_index_of(self.pairs@, *h);
                    assert(0 <= w < self.pairs@.len() && self.pairs@[w].0 == *h);
                    assert(w == i as int);
                }
                return Some(i);
            }
            i += 1;
        }
        assert(!pairs_have_key(self.pairs@, *h));
        None
    }

    /// The number of stored keys.
    pub fn num_keys(&self) -> (r: usize)
        requires
            self.wf(),
        ensures
            self@.dom().finite(),
            r == self@.dom().len(),
    {
        proof {
            self.lemma_dom_size();
        }
        self.pairs.len()
    }

    /// The domain is finite and as large as the backing vector.
    proof fn lemma_dom_size(&self)
        requires
            self.wf(),
        ensures
            self@.dom().finite(),
            self@.dom().len() == self.pairs@.len(),
    {
        broadcast use vstd::seq_lib::seq_to_set_is_finite;

        let ks = self.pairs@.map(|i: int, p: (BlockHash, V)| p.0);
        assert(ks.no_duplicates());
        ks.unique_seq_to_set();
        assert forall|k: BlockHash| #[trigger] self@.dom().contains(k) implies ks.to_set().contains(
            k,
        ) by {
            let w = pair_index_of(self.pairs@, k);
            assert(ks[w] == k);
            assert(ks.contains(k));
        }
        assert forall|k: BlockHash| #[trigger] ks.to_set().contains(k) implies self@.dom().contains(
            k,
        ) by {
            let w = choose|w: int| 0 <= w < ks.len() && ks[w] == k;
            assert(self.pairs@[w].0 == k);
        }
        assert(self@.dom() =~= ks.to_set());
    }

    /// Whether no key is stored.
    pub fn is_empty(&self) -> (r: bool)
        requires
            self.wf(),
        ensures
            r <==> self@ == Map::<BlockHash, V>::empty(),
    {
        proof {
            if self.pairs@.len() == 0 {
                assert(self@ =~= Map::<BlockHash, V>::empty());
            } else {
                assert(self@.contains_key(self.pairs@[0].0));
            }
        }
        self.pairs.len() == 0
    }

    /// Whether the key is present.
    pub fn has(&self, h: &BlockHash) -> (r: bool)
        requires
            self.wf(),
        ensures
            r == self@.contains_key(*h),
    {
        self.find(h).is_some()
    }

    /// The value stored under `h`, if any.
    pub fn get(&self, h: &BlockHash) -> (r: Option<&V>)
        requires
            self.wf(),
        ensures
            match r {
                Some(v) => self@.contains_key(*h) && *v == self@[*h],
                None => !self@.contains_key(*h),
            },
    {
        match self.find(h) {
            Some(i) => Some(&self.pairs[i].1),
            None => None,
        }
    }

    /// Appends a new key; refuses a key that is already present.
    pub fn insert_new(&mut self, h: BlockHash, v: V) -> (r: Result<(), StoreError>)
        requires
            old(self).wf(),
        ensures
            final(self).wf(),
            match r {
                Ok(()) => !old(self)@.contains_key(h) && final(self)@ == old(self)@.insert(h, v),
                Err(e) => old(self)@.contains_key(h) && e == StoreError::KeyAlreadyExists(h)
                    && final(self)@ == old(self)@ && *final(self) == *old(self),
            },
    {
        if self.find(&h).is_some() {
            return Err(StoreError::KeyAlreadyExists(h));
        }
        self.push_absent(h, v);
        Ok(())
    }

    /// Inserts or replaces the value under `h`.
    pub fn upsert(&mut self, h: BlockHash, v: V)
        requires
            old(self).wf(),
        ensures
            final(self).wf(),
            final(self)@ == old(self)@.insert(h, v),
    {
        match self.find(&h) {
            Some(i) => {
                self.pairs.set(i, (h, v));
                proof {
                    assert forall|k: BlockHash| #[trigger] self@.contains_key(k) implies old(self)@.insert(h, v).contains_key(k) by {
                        let w = pair_index_of(self.pairs@, k);
                        if w == i as int {
                        } else {
                            assert(old(self).pairs@[w].0 == k);
                        }
                    }
                    assert forall|k: BlockHash| #[trigger] old(self)@.insert(h, v).contains_key(
                        k,
                    ) implies self@.contains_key(k) && self@[k] == old(self)@.insert(
                        h,
                        v,
                    )[k] by {
                        if k == h {
                            assert(self.pairs@[i as int].0 == k);
                            let w = pair_index_of(self.pairs@, k);
                            assert(w == i as int);
                        } else {
                            let w = pair_index_of(old(self).pairs@, k);
                            assert(self.pairs@[w].0 == k);
                            let w2 = pair_index_of(self.pairs@, k);
                            assert(w2 == w);
                            assert(old(self)@[k] == old(self).pairs@[w].1);
                        }
                    }
                    assert(self@ =~= old(self)@.insert(h, v));
                }
            },
            None => {
                self.push_absent(h, v);
            },
        }
    }

    /// Appends an entry whose key is known to be absent.
    pub(crate) fn push_absent(&mut self, h: BlockHash, v: V)
        requires
            old(self).wf(),
            !old(self)@.contains_key(h),
        ensures
            final(self).wf(),
            final(self)@ == old(self)@.insert(h, v),
    {
        proof {
            assert(!pairs_have_key(old(self).pairs@, h));
        }
        self.pairs.push((h, v));
        proof {
            let n = self.pairs@.len() - 1;
            assert forall|k: BlockHash| #[trigger] self@.contains_key(k) implies old(self)@.insert(h, v).contains_key(k) by {
                let w = pair_index_of(self.pairs@, k);
                if w < n {
                    assert(old(self).pairs@[w].0 == k);
                }
            }
            assert forall|k: BlockHash| #[trigger] old(self)@.insert(h, v).contains_key(k) implies self@.contains_key(k) && self@[k] == old(self)@.insert(h, v)[k] by {
                if k == h {
                    assert(self.pairs@[n].0 == k);
                    let w = pair_index_of(self.pairs@, k);
                    assert(w == n);
                } else {
                    let w = pair_index_of(old(self).pairs@, k);
                    assert(self.pairs@[w].0 == k);
                    let w2 = pair_index_of(self.pairs@, k);
                    assert(w2 == w);
                }
            }
            assert(self@ =~= old(self)@.insert(h, v));
        }
    }

    /// Removes and returns the value under `h`, if any.
    pub fn remove(&mut self, h: &BlockHash) -> (r: Option<V>)
        requires
            old(self).wf(),
        ensures
            final(self).wf(),
            match r {
                Some(v) => old(self)@.contains_key(*h) && v == old(self)@[*h] && final(self)@
                    == old(self)@.remove(*h),
                None => !old(self)@.contains_key(*h) && final(self)@ == old(self)@ && *final(self)
                    == *old(self),
            },
    {
        match self.find(h) {
            Some(i) => {
                let (_, v) = self.pairs.remove(i);
                proof {
                    assert forall|k: BlockHash| #[trigger] self@.contains_key(k) implies old(self)@.remove(*h).contains_key(k) by {
                        let w = pair_index_of(self.pairs@, k);
                        let w0 = if w < i as int {
                            w
                        } else {
                            w + 1
                        };
                        assert(old(self).pairs@[w0].0 == k);
                        assert(k != *h);
                    }
                    assert forall|k: BlockHash| #[trigger] old(self)@.remove(*h).contains_key(
                        k,
                    ) implies self@.contains_key(k) && self@[k] == old(self)@.remove(
                        *h,
                    )[k] by {
                        let w0 = pair_index_of(old(self).pairs@, k);
                        assert(old(self).pairs@[w0].0 == k);
                        assert(w0 != i as int);
                        let w = if w0 < i as int {
                            w0
                        } else {
                            w0 - 1
                        };
                        assert(self.pairs@[w].0 == k);
                        let w2 = pair_index_of(self.pairs@, k);
                        assert(w2 == w);
                        assert(old(self)@[k] == old(self).pairs@[w0].1);
                    }
                    assert(self@ =~= old(self)@.remove(*h));
                }
                Some(v)
            },
            None => None,
        }
    }

    /// The stored pairs, in insertion order.
    pub fn entries(&self) -> (r: Vec<(BlockHash, V)>) where V: Copy
        requires
            self.wf(),
        ensures
            forall|i: int, j: int| 0 <= i < j < r@.len() ==> r@[i].0 != r@[j].0,
            forall|i: int|
                0 <= i < r@.len() ==> self@.contains_key(r@[i].0) && self@[r@[i].0] == r@[i].1,
            forall|k: BlockHash| self@.contains_key(k) ==> exists|i: int|
                0 <= i < r@.len() && r@[i].0 == k,
    {
        let n = self.pairs.len();
        let mut r: Vec<(BlockHash, V)> = Vec::new();
        let mut i: usize = 0;
        while i < n
            invariant
                n == self.pairs@.len(),
                i <= n,
                self.wf(),
                r@.len() == i,
                forall|j: int| 0 <= j < i ==> r@[j] == self.pairs@[j],
            decreases n - i,
        {
            let p = self.pairs[i];
            r.push(p);
            i += 1;
        }
        proof {
            assert forall|j: int|
                0 <= j < r@.len() implies self@.contains_key(r@[j].0) && self@[r@[j].0]
                == r@[j].1 by {
                assert(self.pairs@[j] == r@[j]);
                let w = pair_index_of(self.pairs@, r@[j].0);
                assert(self.pairs@[w].0 == r@[j].0);
                assert(w == j);
            }
            assert forall|k: BlockHash| self@.contains_key(k) implies exists|j: int|
                0 <= j < r@.len() && r@[j].0 == k by {
                let w = pair_index_of(self.pairs@, k);
                assert(r@[w].0 == k);
            }
        }
        r
    }

    /// A copy of the map, for copyable values.
    pub fn clone_copy(&self) -> (r: HashKeyMap<V>) where V: Copy
        requires
            self.wf(),
        ensures
            r.wf(),
            r@ == self@,
    {
        let n = self.pairs.len();
        let mut pairs: Vec<(BlockHash, V)> = Vec::new();
        let mut i: usize = 0;
        while i < n
            invariant
                n == self.pairs@.len(),
                i <= n,
                pairs@.len() == i,
                forall|j: int| 0 <= j < i ==> pairs@[j] == self.pairs@[j],
            decreases n - i,
        {
            let p = self.pairs[i];
            pairs.push(p);
            i += 1;
        }
        proof {
            assert(pairs@ =~= self.pairs@);
        }
        let r = HashKeyMap { pairs };
        proof {
            assert(r@ =~= self@);
        }
        r
    }

}

} // verus!
