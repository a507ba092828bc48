//! The body tips store: the set of blocks with no known children at the
//! body-accepted stage, mutated only by the body stage.
use vstd::prelude::*;
use crate::hash::BlockHash;
use crate::hash::hashes_contain;

verus! {

/// The set of current DAG tips.
pub struct TipsStore {
    tips: Vec<BlockHash>,
}

impl View for TipsStore {
    type V = Set<BlockHash>;

    closed spec fn view(&self) -> Set<BlockHash> {
        self.tips@.to_set()
    }
}

impl TipsStore {
    /// An empty tip set.
    pub fn new() -> (r: TipsStore)
        ensures
            r@ == Set::<BlockHash>::empty(),
    {
        let r = TipsStore { tips: Vec::new() };
        proof {
            assert(r@ =~= Set::<BlockHash>::empty());
        }
        r
    }

    /// Replaces the tip set with the given tips.
    pub fn init(&mut self, initial: Vec<BlockHash>)
        ensures
            final(self)@ == initial@.to_set(),
    {
        self.tips = initial;
    }

    /// Whether the block is a tip.
    pub fn has(&self, hash: BlockHash) -> (r: bool)
        ensures
            r == self@.contains(hash),
    {
        hashes_contain(&self.tips, &hash)
    }

    /// The tips, in insertion order.
    pub fn get_tips(&self) -> (r: Vec<BlockHash>)
        ensures
            r@.to_set() == self@,
    {
        let n = self.tips.len();
        let mut r: Vec<BlockHash> = Vec::new();
        let mut i: usize = 0;
        while i < n
            invariant
                n == self.tips@.len(),
                i <= n,
                r@ == self.tips@.subrange(0, i as int),
            decreases n - i,
        {
            r.push(self.tips[i]);
            proof {
                assert(r@ =~= self.tips@.subrange(0, i + 1));
            }
            i += 1;
        }
        proof {
            assert(r@ =~= self.tips@);
        }
        r
    }

    /// Adds a new block as a tip and removes any of its direct parents that
    /// thereby become internal. Afterwards the new block is a tip and none of
    /// its parents is.
    pub fn add_tip(&mut self, hash: BlockHash, parents: &Vec<BlockHash>)
        requires
            !parents@.contains(hash),
        ensures
            final(self)@ == old(self)@.difference(parents@.to_set()).insert(hash),
            final(self)@.contains(hash),
            forall|i: int| 0 <= i < parents@.len() ==> !final(self)@.contains(#[trigger] parents@[i]),
    {
        let n = self.tips.len();
        let mut kept: Vec<BlockHash> = Vec::new();
        let mut i: usize = 0;
        while i < n
            invariant
                n == self.tips@.len(),
                i <= n,
                forall|t: BlockHash| #[trigger] kept@.contains(t) ==> self.tips@.contains(t)
                    && !parents@.contains(t),
                forall|j: int|
                    0 <= j < i && !parents@.contains(#[trigger] self.tips@[j]) ==> kept@.contains(
                        self.tips@[j],
                    ),
            decreases n - i,
        {
            let t = self.tips[i];
            if !hashes_contain(parents, &t) {
                let ghost kb = kept@;
                kept.push(t);
                proof {
                    assert forall|x: BlockHash| #[trigger] kept@.contains(x) implies self.tips@.contains(x)
                        && !parents@.contains(x) by {
                        let w = choose|w: int| 0 <= w < kept@.len() && kept@[w] == x;
                        if w == kept@.len() - 1 {
                            assert(x == t);
                            assert(self.tips@[i as int] == t);
                        } else {
                            assert(kb[w] == x);
                            assert(kb.contains(x));
                        }
                    }
                    assert forall|j: int|
                        0 <= j < i + 1 && !parents@.contains(
                            #[trigger] self.tips@[j],
                        ) implies kept@.contains(self.tips@[j]) by {
                        if j == i as int {
                            assert(kept@[kept@.len() - 1] == self.tips@[j]);
                        } else {
                            assert(kb.contains(self.tips@[j]));
                            let w = choose|w: int| 0 <= w < kb.len() && kb[w] == self.tips@[j];
                            assert(kept@[w] == self.tips@[j]);
                        }
                    }
                }
            } else {
                proof {
                    assert(parents@.contains(self.tips@[i as int]));
                }
            }
            i += 1;
        }
        let ghost kept0 = kept@;
        let ghost old_tips = self.tips@;
        kept.push(hash);
        self.tips = kept;
        proof {
            assert(self.tips@ == kept0.push(hash));
            assert forall|x: BlockHash| #[trigger] self.tips@.contains(x) implies old(
                self,
            )@.difference(parents@.to_set()).insert(hash).contains(x) by {
                let w = choose|w: int| 0 <= w < self.tips@.len() && self.tips@[w] == x;
                if w == self.tips@.len() - 1 {
                } else {
                    assert(kept0[w] == x);
                    assert(kept0.contains(x));
                }
            }
            assert forall|x: BlockHash| old(self)@.difference(parents@.to_set()).insert(
                hash,
            ).contains(x) implies #[trigger] self.tips@.contains(x) by {
                if x == hash {
                    assert(self.tips@[self.tips@.len() - 1] == x);
                } else {
                    assert(old_tips.contains(x));
                    let w = choose|w: int| 0 <= w < old_tips.len() && old_tips[w] == x;
                    assert(kept0.contains(old_tips[w]));
                    let w2 = choose|w2: int| 0 <= w2 < kept0.len() && kept0[w2] == x;
                    assert(self.tips@[w2] == x);
                }
            }
            assert(final(self)@ =~= old(self)@.difference(parents@.to_set()).insert(hash));
        }
    }
}

} // verus!
