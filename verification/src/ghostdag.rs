//! GHOSTDAG per-block data: blue score, blue work, selected parent, the
//! ordered mergeset and the anticone-size bookkeeping of the k-cluster.
use vstd::prelude::*;
use crate::hash::BlockHash;
use crate::vecmap::HashKeyMap;

verus! {

/// The counter type for blue anticone sizes. This type must be increased to
/// u16 if the GHOSTDAG K parameter is ever set above 255.
pub type KType = u8;

/// The mathematical content of a block's GHOSTDAG data.
pub ghost struct GhostdagView {
    pub blue_score: u64,
    pub blue_work: u128,
    pub selected_parent: BlockHash,
    pub mergeset_blues: Seq<BlockHash>,
    pub mergeset_reds: Seq<BlockHash>,
    pub blues_anticone_sizes: Map<BlockHash, KType>,
}

/// GHOSTDAG data of one block, written once at header processing.
pub struct GhostdagData {
    pub blue_score: u64,
    pub blue_work: u128,
    pub selected_parent: BlockHash,
    pub mergeset_blues: Vec<BlockHash>,
    pub mergeset_reds: Vec<BlockHash>,
    pub blues_anticone_sizes: HashKeyMap<KType>,
}

/// The compact projection used for fast selected-chain walks.
#[derive(Clone, Copy, Debug, PartialEq, Eq)]
pub struct CompactGhostdagData {
    pub blue_score: u64,
    pub blue_work: u128,
    pub selected_parent: BlockHash,
}

impl View for GhostdagData {
    type V = GhostdagView;

    open spec fn view(&self) -> GhostdagView {
        GhostdagView {
            blue_score: self.blue_score,
            blue_work: self.blue_work,
            selected_parent: self.selected_parent,
            mergeset_blues: self.mergeset_blues@,
            mergeset_reds: self.mergeset_reds@,
            blues_anticone_sizes: self.blues_anticone_sizes@,
        }
    }
}

/// The anticone-size map after a blue block joins: `block` enters with its own
/// anticone size, and every blue in the candidate's anticone counts one more.
pub open spec fn bumped_anticone_sizes(
    m: Map<BlockHash, KType>,
    affected: Map<BlockHash, KType>,
) -> Map<BlockHash, KType> {
    Map::new(
        |k: BlockHash| m.contains_key(k) || affected.contains_key(k),
        |k: BlockHash|
            if affected.contains_key(k) {
                (affected[k] + 1) as KType
            } else {
                m[k]
            },
    )
}

/// Every recorded blue anticone size is within the consensus bound `k`.
pub open spec fn k_cluster_ok(sizes: Map<BlockHash, KType>, k: KType) -> bool {
    forall|h: BlockHash| sizes.contains_key(h) ==> sizes[h] <= k
}

/// Admitting a candidate whose own anticone size is within `k`, and bumping
/// only blues whose size stays within `k`, preserves the k-cluster property.
pub proof fn lemma_add_blue_preserves_k_cluster(
    m: Map<BlockHash, KType>,
    block: BlockHash,
    size: KType,
    affected: Map<BlockHash, KType>,
    k: KType,
)
    requires
        k_cluster_ok(m, k),
        size <= k,
        forall|h: BlockHash| affected.contains_key(h) ==> affected[h] + 1 <= k,
    ensures
        k_cluster_ok(bumped_anticone_sizes(m.insert(block, size), affected), k),
{
}

impl GhostdagData {
    /// The anticone-size map keeps distinct keys.
    pub open spec fn wf(&self) -> bool {
        self.blues_anticone_sizes.wf()
    }

    /// Assembles GHOSTDAG data from its parts.
    pub fn new(
        blue_score: u64,
        blue_work: u128,
        selected_parent: BlockHash,
        mergeset_blues: Vec<BlockHash>,
        mergeset_reds: Vec<BlockHash>,
        blues_anticone_sizes: HashKeyMap<KType>,
    ) -> (r: GhostdagData)
        requires
            blues_anticone_sizes.wf(),
        ensures
            r.wf(),
            r@ == (GhostdagView {
                blue_score,
                blue_work,
                selected_parent,
                mergeset_blues: mergeset_blues@,
                mergeset_reds: mergeset_reds@,
                blues_anticone_sizes: blues_anticone_sizes@,
            }),
    {
        GhostdagData {
            blue_score,
            blue_work,
            selected_parent,
            mergeset_blues,
            mergeset_reds,
            blues_anticone_sizes,
        }
    }

    /// Fresh in-progress data for a block whose selected parent is known: the
    /// selected parent is the first mergeset blue, with an empty anticone.
    pub fn new_with_selected_parent(selected_parent: BlockHash, k: KType) -> (r: GhostdagData)
        ensures
            r.wf(),
            r.blue_score == 0,
            r.blue_work == 0,
            r.selected_parent == selected_parent,
            r.mergeset_blues@ == seq![selected_parent],
            r.mergeset_reds@ == Seq::<BlockHash>::empty(),
            r.blues_anticone_sizes@ == Map::<BlockHash, KType>::empty().insert(selected_parent, 0),
    {
        let mut mergeset_blues: Vec<BlockHash> = Vec::with_capacity(k as usize + 1);
        let mut blues_anticone_sizes: HashKeyMap<KType> = HashKeyMap::new();
        mergeset_blues.push(selected_parent);
        blues_anticone_sizes.upsert(selected_parent, 0);
        proof {
            assert(mergeset_blues@ =~= seq![selected_parent]);
        }
        GhostdagData {
            blue_score: 0,
            blue_work: 0,
            selected_parent,
            mergeset_blues,
            mergeset_reds: Vec::new(),
            blues_anticone_sizes,
        }
    }

    /// The number of mergeset blocks, the selected parent included.
    pub fn mergeset_size(&self) -> (r: usize)
        requires
            self.mergeset_blues@.len() + self.mergeset_reds@.len() <= usize::MAX,
        ensures
            r == self.mergeset_blues@.len() + self.mergeset_reds@.len(),
    {
        self.mergeset_blues.len() + self.mergeset_reds.len()
    }

    /// The compact projection of this data.
    pub fn to_compact(&self) -> (r: CompactGhostdagData)
        ensures
            r == (CompactGhostdagData {
                blue_score: self.blue_score,
                blue_work: self.blue_work,
                selected_parent: self.selected_parent,
            }),
    {
        CompactGhostdagData {
            blue_score: self.blue_score,
            blue_work: self.blue_work,
            selected_parent: self.selected_parent,
        }
    }

    /// Records a mergeset block as blue: appends it to the mergeset blues,
    /// inserts it into the anticone-size map with its own blue anticone size,
    /// and counts one more for every blue in the candidate's anticone.
    pub fn add_blue(
        &mut self,
        block: BlockHash,
        blue_anticone_size: KType,
        block_blues_anticone_sizes: &HashKeyMap<KType>,
    )
        requires
            old(self).wf(),
            block_blues_anticone_sizes.wf(),
            forall|h: BlockHash| block_blues_anticone_sizes@.contains_key(h)
                ==> block_blues_anticone_sizes@[h] < KType::MAX,
        ensures
            final(self).wf(),
            final(self).mergeset_blues@ == old(self).mergeset_blues@.push(block),
            final(self).mergeset_reds == old(self).mergeset_reds,
            final(self).blue_score == old(self).blue_score,
            final(self).blue_work == old(self).blue_work,
            final(self).selected_parent == old(self).selected_parent,
            final(self).blues_anticone_sizes@ == bumped_anticone_sizes(
                old(self).blues_anticone_sizes@.insert(block, blue_anticone_size),
                block_blues_anticone_sizes@,
            ),
    {
        self.mergeset_blues.push(block);
        self.blues_anticone_sizes.upsert(block, blue_anticone_size);
        let affected = block_blues_anticone_sizes.entries();
        let n = affected.len();
        let ghost m0 = old(self).blues_anticone_sizes@.insert(block, blue_anticone_size);
        let ghost aff = block_blues_anticone_sizes@;
        let mut i: usize = 0;
        while i < n
            invariant
                n == affected@.len(),
                i <= n,
                self.blues_anticone_sizes.wf(),
                self.mergeset_blues@ == old(self).mergeset_blues@.push(block),
                self.mergeset_reds == old(self).mergeset_reds,
                self.blue_score == old(self).blue_score,
                self.blue_work == old(self).blue_work,
                self.selected_parent == old(self).selected_parent,
                forall|j: int|
                    0 <= j < affected@.len() ==> aff.contains_key(#[trigger] affected@[j].0)
                        && aff[affected@[j].0] == affected@[j].1,
                forall|h: BlockHash| aff.contains_key(h) ==> exists|j: int|
                    0 <= j < affected@.len() && affected@[j].0 == h,
                forall|h: BlockHash| aff.contains_key(h) ==> aff[h] < KType::MAX,
                forall|h: BlockHash|
                    #[trigger] self.blues_anticone_sizes@.contains_key(h) <==> (m0.contains_key(h)
                        || exists|j: int| 0 <= j < i && affected@[j].0 == h),
                forall|h: BlockHash|
                    (exists|j: int| 0 <= j < i && affected@[j].0 == h)
                        ==> #[trigger] self.blues_anticone_sizes@[h] == aff[h] + 1,
                forall|h: BlockHash|
                    m0.contains_key(h) && !(exists|j: int| 0 <= j < i && affected@[j].0 == h)
                        ==> #[trigger] self.blues_anticone_sizes@[h] == m0[h],
            decreases n - i,
        {
            let (blue, size) = affected[i];
            let ghost prev = self.blues_anticone_sizes@;
            self.blues_anticone_sizes.upsert(blue, size + 1);
            proof {
                assert forall|h: BlockHash| #[trigger] self.blues_anticone_sizes@.contains_key(
                    h,
                ) <==> (m0.contains_key(h) || exists|j: int|
                    0 <= j < i + 1 && affected@[j].0 == h) by {
                    if h == blue {
                        assert(affected@[i as int].0 == h);
                    } else {
                        assert(self.blues_anticone_sizes@.contains_key(h) <==> prev.contains_key(
                            h,
                        ));
                        assert((exists|j: int| 0 <= j < i + 1 && affected@[j].0 == h) <==> (
                        exists|j: int| 0 <= j < i && affected@[j].0 == h));
                    }
                }
                assert forall|h: BlockHash|
                    (exists|j: int|
                        0 <= j < i + 1 && affected@[j].0
                            == h) implies #[trigger] self.blues_anticone_sizes@[h] == aff[h]
                    + 1 by {
                    if h == blue {
                        assert(aff[h] == size);
                    } else {
                        assert(exists|j: int| 0 <= j < i && affected@[j].0 == h);
                    }
                }
            }
            i += 1;
        }
        proof {
            assert forall|h: BlockHash| aff.contains_key(h) implies exists|j: int|
                0 <= j < i && affected@[j].0 == h by {
            }
            assert forall|h: BlockHash|
                (exists|j: int| 0 <= j < i && affected@[j].0 == h) implies aff.contains_key(h) by {
                let j = choose|j: int| 0 <= j < i && affected@[j].0 == h;
                assert(aff.contains_key(affected@[j].0));
            }
            assert(self.blues_anticone_sizes@ =~= bumped_anticone_sizes(m0, aff));
        }
    }

    /// Records a mergeset block as red.
    pub fn add_red(&mut self, block: BlockHash)
        requires
            old(self).wf(),
        ensures
            final(self).wf(),
            final(self).mergeset_reds@ == old(self).mergeset_reds@.push(block),
            final(self).mergeset_blues == old(self).mergeset_blues,
            final(self).blue_score == old(self).blue_score,
            final(self).blue_work == old(self).blue_work,
            final(self).selected_parent == old(self).selected_parent,
            final(self).blues_anticone_sizes == old(self).blues_anticone_sizes,
    {
        self.mergeset_reds.push(block);
    }

    /// Sets the final cumulative blue score and blue work.
    pub fn finalize_score_and_work(&mut self, blue_score: u64, blue_work: u128)
        requires
            old(self).wf(),
        ensures
            final(self).wf(),
            final(self).blue_score == blue_score,
            final(self).blue_work == blue_work,
            final(self).selected_parent == old(self).selected_parent,
            final(self).mergeset_blues == old(self).mergeset_blues,
            final(self).mergeset_reds == old(self).mergeset_reds,
            final(self).blues_anticone_sizes == old(self).blues_anticone_sizes,
    {
        self.blue_score = blue_score;
        self.blue_work = blue_work;
    }
}

} // verus!
