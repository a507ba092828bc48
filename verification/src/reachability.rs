//! Reachability over the selected-parent tree: each block carries a
//! half-open interval label such that a block's interval contains the
//! intervals of all its tree descendants, so ancestry is one comparison.
use vstd::prelude::*;
use crate::errors::StoreError;
use crate::hash::BlockHash;
use crate::vecmap::HashKeyMap;

verus! {

/// A half-open interval label over the selected-parent tree.
#[derive(Clone, Copy, Debug, PartialEq, Eq)]
pub struct Interval {
    pub begin: u64,
    pub end: u64,
}

/// Whether `a`'s interval contains `b`'s: `a` is a chain ancestor of `b`.
pub open spec fn spec_chain_ancestor(
    m: Map<BlockHash, Interval>,
    a: BlockHash,
    b: BlockHash,
) -> bool {
    m[a].begin <= m[b].begin && m[b].end <= m[a].end
}

/// The candidates that belong to the mergeset: those that are not the
/// selected parent and not in its past.
pub open spec fn spec_mergeset_of(
    candidates: Seq<BlockHash>,
    m: Map<BlockHash, Interval>,
    selected_parent: BlockHash,
) -> Seq<BlockHash>
    decreases candidates.len(),
{
    if candidates.len() == 0 {
        Seq::empty()
    } else {
        let rest = spec_mergeset_of(candidates.drop_last(), m, selected_parent);
        let c = candidates.last();
        if c != selected_parent && !spec_chain_ancestor(m, c, selected_parent) {
            rest.push(c)
        } else {
            rest
        }
    }
}

/// The interval index of the selected-parent tree.
pub struct ReachabilityStore {
    map: HashKeyMap<Interval>,
}

impl View for ReachabilityStore {
    type V = Map<BlockHash, Interval>;

    closed spec fn view(&self) -> Map<BlockHash, Interval> {
        self.map@
    }
}

impl ReachabilityStore {
    /// The backing map keeps distinct keys.
    pub closed spec fn wf(&self) -> bool {
        self.map.wf()
    }

    /// An empty index.
    pub fn new() -> (r: ReachabilityStore)
        ensures
            r.wf(),
            r@ == Map::<BlockHash, Interval>::empty(),
    {
        ReachabilityStore { map: HashKeyMap::new() }
    }

    /// Labels a block; labels are append-only and a second label for a block
    /// is refused. Keeping every child's interval inside its tree parent's is
    /// the single writer's contract.
    pub fn insert(&mut self, hash: BlockHash, begin: u64, end: u64) -> (r: Result<(), StoreError>)
        requires
            old(self).wf(),
        ensures
            final(self).wf(),
            match r {
                Ok(()) => !old(self)@.contains_key(hash) && final(self)@ == old(self)@.insert(
                    hash,
                    (Interval { begin, end }),
                ),
                Err(e) => old(self)@.contains_key(hash) && e == StoreError::KeyAlreadyExists(hash)
                    && final(self)@ == old(self)@,
            },
    {
        self.map.insert_new(hash, Interval { begin, end })
    }

    /// The interval of a labeled block.
    pub fn interval_of(&self, hash: BlockHash) -> (r: Result<Interval, StoreError>)
        requires
            self.wf(),
        ensures
            match r {
                Ok(iv) => self@.contains_key(hash) && iv == self@[hash],
                Err(e) => !self@.contains_key(hash) && e == StoreError::KeyNotFound(hash),
            },
    {
        match self.map.get(&hash) {
            Some(iv) => Ok(*iv),
            None => Err(StoreError::KeyNotFound(hash)),
        }
    }

    /// Whether `a` is a chain ancestor of `b`, by one interval comparison.
    pub fn is_chain_ancestor_of(&self, a: BlockHash, b: BlockHash) -> (r: Result<bool, StoreError>)
        requires
            self.wf(),
        ensures
            match r {
                Ok(res) => self@.contains_key(a) && self@.contains_key(b) && res
                    == spec_chain_ancestor(self@, a, b),
                Err(e) => (!self@.contains_key(a) && e == StoreError::KeyNotFound(a)) || (
                !self@.contains_key(b) && e == StoreError::KeyNotFound(b)),
            },
    {
        let ia = self.interval_of(a)?;
        let ib = self.interval_of(b)?;
        Ok(ia.begin <= ib.begin && ib.end <= ia.end)
    }

    /// Filters mergeset candidates (blocks gathered from the pasts of the new
    /// block's non-selected parents) down to the mergeset: no block that is
    /// the selected parent, or that the selected parent reaches in the tree,
    /// stays.
    pub fn compute_mergeset(&self, candidates: &Vec<BlockHash>, selected_parent: BlockHash) -> (r:
        Vec<BlockHash>)
        requires
            self.wf(),
            self@.contains_key(selected_parent),
            forall|i: int|
                0 <= i < candidates@.len() ==> self@.contains_key(#[trigger] candidates@[i]),
        ensures
            r@ == spec_mergeset_of(candidates@, self@, selected_parent),
            forall|i: int|
                0 <= i < r@.len() ==> !spec_chain_ancestor(self@, #[trigger] r@[i], selected_parent)
                    && r@[i] != selected_parent,
    {
        let n = candidates.len();
        let mut r: Vec<BlockHash> = Vec::new();
        let mut i: usize = 0;
        proof {
            assert(spec_mergeset_of(candidates@.subrange(0, 0), self@, selected_parent) =~= r@);
        }
        while i < n
            invariant
                n == candidates@.len(),
                i <= n,
                self.wf(),
                self@.contains_key(selected_parent),
                forall|j: int|
                    0 <= j < candidates@.len() ==> self@.contains_key(#[trigger] candidates@[j]),
                r@ == spec_mergeset_of(candidates@.subrange(0, i as int), self@, selected_parent),
                forall|j: int|
                    0 <= j < r@.len() ==> !spec_chain_ancestor(
                        self@,
                        #[trigger] r@[j],
                        selected_parent,
                    ) && r@[j] != selected_parent,
            decreases n - i,
        {
            let c = candidates[i];
            proof {
                assert(candidates@.subrange(0, i + 1).drop_last() =~= candidates@.subrange(
                    0,
                    i as int,
                ));
                assert(candidates@.subrange(0, i + 1).last() == candidates@[i as int]);
            }
            let is_sp = c.eq_hash(&selected_parent);
            if !is_sp {
                let reachable = match self.is_chain_ancestor_of(c, selected_parent) {
                    Ok(res) => res,
                    Err(_) => {
                        proof {
                            assert(false);
                        }
                        false
                    },
                };
                if !reachable {
                    r.push(c);
                }
            }
            i += 1;
        }
        proof {
            assert(candidates@.subrange(0, n as int) =~= candidates@);
        }
        r
    }
}

} // verus!
