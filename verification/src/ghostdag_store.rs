//! GHOSTDAG stores: the reader and writer interfaces over per-block GHOSTDAG
//! data, an in-memory implementation, and the ordered mergeset views that
//! read blue work through a store.
use vstd::prelude::*;
use crate::errors::StoreError;
use crate::ghostdag::CompactGhostdagData;
use crate::ghostdag::GhostdagData;
use crate::ghostdag::GhostdagView;
use crate::ghostdag::KType;
use crate::hash::BlockHash;
use crate::hash::copy_hashes;
use crate::ordering::SortableBlock;
use crate::ordering::lemma_merge_asc_multiset;
use crate::ordering::merge_asc;
use crate::ordering::merge_ascending;
use crate::ordering::reverse_blocks;
use crate::vecmap::HashKeyMap;

verus! {

/// The hashes of a sequence of sortable blocks, in order.
pub open spec fn hashes_of(s: Seq<SortableBlock>) -> Seq<BlockHash> {
    s.map(|i: int, b: SortableBlock| b.hash)
}

/// The blocks of `hashes` paired with their blue work as the store records it.
pub open spec fn sortables_of(
    hashes: Seq<BlockHash>,
    gd: Map<BlockHash, GhostdagView>,
) -> Seq<SortableBlock> {
    hashes.map(|i: int, h: BlockHash| SortableBlock { hash: h, blue_work: gd[h].blue_work })
}

/// Read access to per-block GHOSTDAG data.
pub trait GhostdagStoreReader: Sized {
    /// The recorded data, as a map from block hash to its view.
    spec fn gd(&self) -> Map<BlockHash, GhostdagView>;

    /// The store's internal well-formedness.
    spec fn valid(&self) -> bool;

    /// The blue score of the requested block.
    fn get_blue_score(&self, hash: BlockHash) -> (r: Result<u64, StoreError>)
        requires
            self.valid(),
        ensures
            match r {
                Ok(s) => self.gd().contains_key(hash) && s == self.gd()[hash].blue_score,
                Err(e) => !self.gd().contains_key(hash) && e == StoreError::KeyNotFound(hash),
            },
    ;

    /// The blue work of the requested block.
    fn get_blue_work(&self, hash: BlockHash) -> (r: Result<u128, StoreError>)
        requires
            self.valid(),
        ensures
            match r {
                Ok(w) => self.gd().contains_key(hash) && w == self.gd()[hash].blue_work,
                Err(e) => !self.gd().contains_key(hash) && e == StoreError::KeyNotFound(hash),
            },
    ;

    /// The selected parent of the requested block.
    fn get_selected_parent(&self, hash: BlockHash) -> (r: Result<BlockHash, StoreError>)
        requires
            self.valid(),
        ensures
            match r {
                Ok(p) => self.gd().contains_key(hash) && p == self.gd()[hash].selected_parent,
                Err(e) => !self.gd().contains_key(hash) && e == StoreError::KeyNotFound(hash),
            },
    ;

    /// The ordered mergeset blues of the requested block.
    fn get_mergeset_blues(&self, hash: BlockHash) -> (r: Result<Vec<BlockHash>, StoreError>)
        requires
            self.valid(),
        ensures
            match r {
                Ok(v) => self.gd().contains_key(hash) && v@ == self.gd()[hash].mergeset_blues,
                Err(e) => !self.gd().contains_key(hash) && e == StoreError::KeyNotFound(hash),
            },
    ;

    /// The ordered mergeset reds of the requested block.
    fn get_mergeset_reds(&self, hash: BlockHash) -> (r: Result<Vec<BlockHash>, StoreError>)
        requires
            self.valid(),
        ensures
            match r {
                Ok(v) => self.gd().contains_key(hash) && v@ == self.gd()[hash].mergeset_reds,
                Err(e) => !self.gd().contains_key(hash) && e == StoreError::KeyNotFound(hash),
            },
    ;

    /// The blue anticone sizes of the requested block.
    fn get_blues_anticone_sizes(&self, hash: BlockHash) -> (r: Result<HashKeyMap<KType>, StoreError>)
        requires
            self.valid(),
        ensures
            match r {
                Ok(m) => self.gd().contains_key(hash) && m.wf() && m@ == self.gd()[
                    hash
                ].blues_anticone_sizes,
                Err(e) => !self.gd().contains_key(hash) && e == StoreError::KeyNotFound(hash),
            },
    ;

    /// Returns full block data for the requested hash.
    fn get_data(&self, hash: BlockHash) -> (r: Result<GhostdagData, StoreError>)
        requires
            self.valid(),
        ensures
            match r {
                Ok(d) => self.gd().contains_key(hash) && d.wf() && d@ == self.gd()[hash],
                Err(e) => !self.gd().contains_key(hash) && e == StoreError::KeyNotFound(hash),
            },
    ;

    /// The compact projection of the requested block's data.
    fn get_compact_data(&self, hash: BlockHash) -> (r: Result<CompactGhostdagData, StoreError>)
        requires
            self.valid(),
        ensures
            match r {
                Ok(c) => self.gd().contains_key(hash) && c == (CompactGhostdagData {
                    blue_score: self.gd()[hash].blue_score,
                    blue_work: self.gd()[hash].blue_work,
                    selected_parent: self.gd()[hash].selected_parent,
                }),
                Err(e) => !self.gd().contains_key(hash) && e == StoreError::KeyNotFound(hash),
            },
    ;

    /// Check if the store contains data for the requested hash.
    fn has(&self, hash: BlockHash) -> (r: Result<bool, StoreError>)
        requires
            self.valid(),
        ensures
            r == Result::<bool, StoreError>::Ok(self.gd().contains_key(hash)),
    ;
}

/// Write access: GHOSTDAG data is added once and never modified, so the one
/// writer operation is an append-only insert that refuses duplicate keys.
pub trait GhostdagStore: GhostdagStoreReader {
    /// Insert GHOSTDAG data for block `hash` into the store.
    fn insert(&mut self, hash: BlockHash, data: GhostdagData) -> (r: Result<(), StoreError>)
        requires
            old(self).valid(),
            data.wf(),
        ensures
            final(self).valid(),
            match r {
                Ok(()) => !old(self).gd().contains_key(hash) && final(self).gd() == old(
                    self,
                ).gd().insert(hash, data@),
                Err(e) => old(self).gd().contains_key(hash) && e == StoreError::KeyAlreadyExists(
                    hash,
                ) && final(self).gd() == old(self).gd(),
            },
    ;
}

/// An in-memory implementation of the GHOSTDAG store, holding each field of
/// the data in a map of its own, with one common key set.
pub struct MemoryGhostdagStore {
    blue_score_map: HashKeyMap<u64>,
    blue_work_map: HashKeyMap<u128>,
    selected_parent_map: HashKeyMap<BlockHash>,
    mergeset_blues_map: HashKeyMap<Vec<BlockHash>>,
    mergeset_reds_map: HashKeyMap<Vec<BlockHash>>,
    blues_anticone_sizes_map: HashKeyMap<HashKeyMap<KType>>,
}

impl MemoryGhostdagStore {
    /// An empty store.
    pub fn new() -> (r: MemoryGhostdagStore)
        ensures
            r.valid(),
            r.gd() == Map::<BlockHash, GhostdagView>::empty(),
    {
        let r = MemoryGhostdagStore {
            blue_score_map: HashKeyMap::new(),
            blue_work_map: HashKeyMap::new(),
            selected_parent_map: HashKeyMap::new(),
            mergeset_blues_map: HashKeyMap::new(),
            mergeset_reds_map: HashKeyMap::new(),
            blues_anticone_sizes_map: HashKeyMap::new(),
        };
        proof {
            assert(r.gd() =~= Map::<BlockHash, GhostdagView>::empty());
        }
        r
    }
}


impl GhostdagStoreReader for MemoryGhostdagStore {
    closed spec fn gd(&self) -> Map<BlockHash, GhostdagView> {
        Map::new(
            |h: BlockHash| self.blue_score_map@.contains_key(h),
            |h: BlockHash|
                GhostdagView {
                    blue_score: self.blue_score_map@[h],
                    blue_work: self.blue_work_map@[h],
                    selected_parent: self.selected_parent_map@[h],
                    mergeset_blues: self.mergeset_blues_map@[h]@,
                    mergeset_reds: self.mergeset_reds_map@[h]@,
                    blues_anticone_sizes: self.blues_anticone_sizes_map@[h]@,
                },
        )
    }

    closed spec fn valid(&self) -> bool {
        &&& self.blue_score_map.wf()
        &&& self.blue_work_map.wf()
        &&& self.selected_parent_map.wf()
        &&& self.mergeset_blues_map.wf()
        &&& self.mergeset_reds_map.wf()
        &&& self.blues_anticone_sizes_map.wf()
        &&& forall|h: BlockHash|
            self.blue_score_map@.contains_key(h)
                <==> #[trigger] self.blue_work_map@.contains_key(h)
        &&& forall|h: BlockHash|
            self.blue_score_map@.contains_key(h)
                <==> #[trigger] self.selected_parent_map@.contains_key(h)
        &&& forall|h: BlockHash|
            self.blue_score_map@.contains_key(h)
                <==> #[trigger] self.mergeset_blues_map@.contains_key(h)
        &&& forall|h: BlockHash|
            self.blue_score_map@.contains_key(h)
                <==> #[trigger] self.mergeset_reds_map@.contains_key(h)
        &&& forall|h: BlockHash|
            self.blue_score_map@.contains_key(h)
                <==> #[trigger] self.blues_anticone_sizes_map@.contains_key(h)
        &&& forall|h: BlockHash|
            #[trigger] self.blues_anticone_sizes_map@.contains_key(h)
                ==> self.blues_anticone_sizes_map@[h].wf()
    }

    fn get_blue_score(&self, hash: BlockHash) -> (r: Result<u64, StoreError>) {
        match self.blue_score_map.get(&hash) {
            Some(s) => Ok(*s),
            None => Err(StoreError::KeyNotFound(hash)),
        }
    }

    fn get_blue_work(&self, hash: BlockHash) -> (r: Result<u128, StoreError>) {
        match self.blue_work_map.get(&hash) {
            Some(w) => Ok(*w),
            None => Err(StoreError::KeyNotFound(hash)),
        }
    }

    fn get_selected_parent(&self, hash: BlockHash) -> (r: Result<BlockHash, StoreError>) {
        match self.selected_parent_map.get(&hash) {
            Some(p) => Ok(*p),
            None => Err(StoreError::KeyNotFound(hash)),
        }
    }

    fn get_mergeset_blues(&self, hash: BlockHash) -> (r: Result<Vec<BlockHash>, StoreError>) {
        match self.mergeset_blues_map.get(&hash) {
            Some(v) => Ok(copy_hashes(v)),
            None => Err(StoreError::KeyNotFound(hash)),
        }
    }

    fn get_mergeset_reds(&self, hash: BlockHash) -> (r: Result<Vec<BlockHash>, StoreError>) {
        match self.mergeset_reds_map.get(&hash) {
            Some(v) => Ok(copy_hashes(v)),
            None => Err(StoreError::KeyNotFound(hash)),
        }
    }

    fn get_blues_anticone_sizes(&self, hash: BlockHash) -> (r: Result<
        HashKeyMap<KType>,
        StoreError,
    >) {
        match self.blues_anticone_sizes_map.get(&hash) {
            Some(m) => Ok(m.clone_copy()),
            None => Err(StoreError::KeyNotFound(hash)),
        }
    }

    fn get_data(&self, hash: BlockHash) -> (r: Result<GhostdagData, StoreError>) {
        let blue_score = match self.blue_score_map.get(&hash) {
            Some(s) => *s,
            None => {
                return Err(StoreError::KeyNotFound(hash));
            },
        };
        let blue_work = match self.blue_work_map.get(&hash) {
            Some(w) => *w,
            None => {
                return Err(StoreError::KeyNotFound(hash));
            },
        };
        let selected_parent = match self.selected_parent_map.get(&hash) {
            Some(p) => *p,
            None => {
                return Err(StoreError::KeyNotFound(hash));
            },
        };
        let mergeset_blues = match self.mergeset_blues_map.get(&hash) {
            Some(v) => copy_hashes(v),
            None => {
                return Err(StoreError::KeyNotFound(hash));
            },
        };
        let mergeset_reds = match self.mergeset_reds_map.get(&hash) {
            Some(v) => copy_hashes(v),
            None => {
                return Err(StoreError::KeyNotFound(hash));
            },
        };
        let blues_anticone_sizes = match self.blues_anticone_sizes_map.get(&hash) {
            Some(m) => m.clone_copy(),
            None => {
                return Err(StoreError::KeyNotFound(hash));
            },
        };
        Ok(
            GhostdagData::new(
                blue_score,
                blue_work,
                selected_parent,
                mergeset_blues,
                mergeset_reds,
                blues_anticone_sizes,
            ),
        )
    }

    fn get_compact_data(&self, hash: BlockHash) -> (r: Result<CompactGhostdagData, StoreError>) {
        match self.get_data(hash) {
            Ok(d) => Ok(d.to_compact()),
            Err(e) => Err(e),
        }
    }

    fn has(&self, hash: BlockHash) -> (r: Result<bool, StoreError>) {
        Ok(self.blue_score_map.has(&hash))
    }
}

impl GhostdagStore for MemoryGhostdagStore {
    fn insert(&mut self, hash: BlockHash, data: GhostdagData) -> (r: Result<(), StoreError>) {
        if self.blue_score_map.has(&hash) {
            return Err(StoreError::KeyAlreadyExists(hash));
        }
        let ghost dv = data@;
        let GhostdagData {
            blue_score,
            blue_work,
            selected_parent,
            mergeset_blues,
            mergeset_reds,
            blues_anticone_sizes,
        } = data;
        self.blue_score_map.push_absent(hash, blue_score);
        self.blue_work_map.push_absent(hash, blue_work);
        self.selected_parent_map.push_absent(hash, selected_parent);
        self.mergeset_blues_map.push_absent(hash, mergeset_blues);
        self.mergeset_reds_map.push_absent(hash, mergeset_reds);
        self.blues_anticone_sizes_map.push_absent(hash, blues_anticone_sizes);
        proof {
            assert(self.gd() =~= old(self).gd().insert(hash, dv));
        }
        Ok(())
    }
}


/// Builds the sortable blocks of `hashes[start..]`, reading each block's blue
/// work from the store.
fn sortables_from<S: GhostdagStoreReader>(hashes: &Vec<BlockHash>, start: usize, store: &S) -> (r:
    Vec<SortableBlock>)
    requires
        store.valid(),
        start <= hashes@.len(),
        forall|i: int| start <= i < hashes@.len() ==> store.gd().contains_key(#[trigger] hashes@[i]),
    ensures
        r@ == sortables_of(hashes@.subrange(start as int, hashes@.len() as int), store.gd()),
{
    let n = hashes.len();
    let mut r: Vec<SortableBlock> = Vec::new();
    let mut i: usize = start;
    proof {
        assert(r@ =~= sortables_of(hashes@.subrange(start as int, start as int), store.gd()));
    }
    while i < n
        invariant
            n == hashes@.len(),
            start <= i <= n,
            store.valid(),
            forall|j: int| start <= j < n ==> store.gd().contains_key(#[trigger] hashes@[j]),
            r@ == sortables_of(hashes@.subrange(start as int, i as int), store.gd()),
        decreases n - i,
    {
        match store.get_blue_work(hashes[i]) {
            Ok(w) => {
                r.push(SortableBlock::new(hashes[i], w));
                proof {
                    assert(r@ =~= sortables_of(
                        hashes@.subrange(start as int, i + 1),
                        store.gd(),
                    ));
                }
            },
            Err(_) => {
                proof {
                    assert(false);
                }
            },
        }
        i += 1;
    }
    r
}

impl GhostdagData {
    /// Every mergeset block except the selected parent has recorded data in
    /// the store.
    pub open spec fn mergeset_in_store(&self, gd: Map<BlockHash, GhostdagView>) -> bool {
        &&& forall|i: int|
            1 <= i < self.mergeset_blues@.len() ==> gd.contains_key(
                #[trigger] self.mergeset_blues@[i],
            )
        &&& forall|i: int|
            0 <= i < self.mergeset_reds@.len() ==> gd.contains_key(
                #[trigger] self.mergeset_reds@[i],
            )
    }

    /// The mergeset without the selected parent, in ascending blue work order
    /// with ties broken by hash: the merge of the blues after the selected
    /// parent with the reds.
    pub open spec fn spec_ascending(&self, gd: Map<BlockHash, GhostdagView>) -> Seq<SortableBlock> {
        merge_asc(
            sortables_of(self.mergeset_blues@.drop_first(), gd),
            sortables_of(self.mergeset_reds@, gd),
        )
    }

    /// Returns the mergeset in ascending blue work order (tie-breaking by
    /// hash), without the selected parent.
    pub fn ascending_mergeset_without_selected_parent<S: GhostdagStoreReader>(
        &self,
        store: &S,
    ) -> (r: Vec<SortableBlock>)
        requires
            self.wf(),
            store.valid(),
            self.mergeset_blues@.len() >= 1,
            self.mergeset_in_store(store.gd()),
        ensures
            r@ == self.spec_ascending(store.gd()),
    {
        let blues = sortables_from(&self.mergeset_blues, 1, store);
        let reds = sortables_from(&self.mergeset_reds, 0, store);
        proof {
            assert(self.mergeset_blues@.subrange(1, self.mergeset_blues@.len() as int)
                =~= self.mergeset_blues@.drop_first());
            assert(self.mergeset_reds@.subrange(0, self.mergeset_reds@.len() as int)
                =~= self.mergeset_reds@);
        }
        merge_ascending(&blues, &reds)
    }

    /// Returns the mergeset in descending blue work order (tie-breaking by
    /// hash), without the selected parent: the exact reverse of the ascending
    /// mergeset.
    pub fn descending_mergeset_without_selected_parent<S: GhostdagStoreReader>(
        &self,
        store: &S,
    ) -> (r: Vec<SortableBlock>)
        requires
            self.wf(),
            store.valid(),
            self.mergeset_blues@.len() >= 1,
            self.mergeset_in_store(store.gd()),
        ensures
            r@ == self.spec_ascending(store.gd()).reverse(),
    {
        let asc = self.ascending_mergeset_without_selected_parent(store);
        reverse_blocks(&asc)
    }

    /// Returns the mergeset in topological consensus order: the selected
    /// parent first, then the mergeset in ascending blue work order.
    pub fn consensus_ordered_mergeset<S: GhostdagStoreReader>(&self, store: &S) -> (r: Vec<
        BlockHash,
    >)
        requires
            self.wf(),
            store.valid(),
            self.mergeset_blues@.len() >= 1,
            self.mergeset_in_store(store.gd()),
        ensures
            r@ == seq![self.selected_parent] + hashes_of(self.spec_ascending(store.gd())),
    {
        let asc = self.ascending_mergeset_without_selected_parent(store);
        let n = asc.len();
        let mut r: Vec<BlockHash> = Vec::new();
        r.push(self.selected_parent);
        let mut i: usize = 0;
        while i < n
            invariant
                n == asc@.len(),
                i <= n,
                r@.len() == i + 1,
                r@[0] == self.selected_parent,
                forall|j: int| 0 <= j < i ==> r@[j + 1] == asc@[j].hash,
            decreases n - i,
        {
            r.push(asc[i].hash);
            i += 1;
        }
        proof {
            assert(r@ =~= seq![self.selected_parent] + hashes_of(asc@));
        }
        r
    }

    /// Returns the mergeset in topological consensus order without the
    /// selected parent.
    pub fn consensus_ordered_mergeset_without_selected_parent<S: GhostdagStoreReader>(
        &self,
        store: &S,
    ) -> (r: Vec<BlockHash>)
        requires
            self.wf(),
            store.valid(),
            self.mergeset_blues@.len() >= 1,
            self.mergeset_in_store(store.gd()),
        ensures
            r@ == hashes_of(self.spec_ascending(store.gd())),
    {
        let asc = self.ascending_mergeset_without_selected_parent(store);
        let n = asc.len();
        let mut r: Vec<BlockHash> = Vec::new();
        let mut i: usize = 0;
        while i < n
            invariant
                n == asc@.len(),
                i <= n,
                r@.len() == i,
                forall|j: int| 0 <= j < i ==> r@[j] == asc@[j].hash,
            decreases n - i,
        {
            r.push(asc[i].hash);
            i += 1;
        }
        proof {
            assert(r@ =~= hashes_of(asc@));
        }
        r
    }

    /// Returns the mergeset with no specified order, the selected parent
    /// excluded: the blues after the selected parent, then the reds.
    pub fn unordered_mergeset_without_selected_parent(&self) -> (r: Vec<BlockHash>)
        requires
            self.mergeset_blues@.len() >= 1,
        ensures
            r@ == self.mergeset_blues@.drop_first() + self.mergeset_reds@,
    {
        let nb = self.mergeset_blues.len();
        let nr = self.mergeset_reds.len();
        let mut r: Vec<BlockHash> = Vec::new();
        let mut i: usize = 1;
        while i < nb
            invariant
                nb == self.mergeset_blues@.len(),
                1 <= i <= nb,
                r@.len() == i - 1,
                forall|j: int| 0 <= j < i - 1 ==> r@[j] == self.mergeset_blues@[j + 1],
            decreases nb - i,
        {
            r.push(self.mergeset_blues[i]);
            i += 1;
        }
        let mut j: usize = 0;
        while j < nr
            invariant
                nb == self.mergeset_blues@.len(),
                nr == self.mergeset_reds@.len(),
                1 <= nb,
                j <= nr,
                r@.len() == nb - 1 + j,
                forall|t: int| 0 <= t < nb - 1 ==> r@[t] == self.mergeset_blues@[t + 1],
                forall|t: int| 0 <= t < j ==> r@[nb - 1 + t] == self.mergeset_reds@[t],
            decreases nr - j,
        {
            r.push(self.mergeset_reds[j]);
            j += 1;
        }
        proof {
            assert(r@ =~= self.mergeset_blues@.drop_first() + self.mergeset_reds@);
        }
        r
    }

    /// Returns the mergeset with no specified order, the selected parent
    /// included: the blues, then the reds.
    pub fn unordered_mergeset(&self) -> (r: Vec<BlockHash>)
        ensures
            r@ == self.mergeset_blues@ + self.mergeset_reds@,
    {
        let nb = self.mergeset_blues.len();
        let nr = self.mergeset_reds.len();
        let mut r: Vec<BlockHash> = Vec::new();
        let mut i: usize = 0;
        while i < nb
            invariant
                nb == self.mergeset_blues@.len(),
                i <= nb,
                r@.len() == i,
                forall|j: int| 0 <= j < i ==> r@[j] == self.mergeset_blues@[j],
            decreases nb - i,
        {
            r.push(self.mergeset_blues[i]);
            i += 1;
        }
        let mut j: usize = 0;
        while j < nr
            invariant
                nb == self.mergeset_blues@.len(),
                nr == self.mergeset_reds@.len(),
                j <= nr,
                r@.len() == nb + j,
                forall|t: int| 0 <= t < nb ==> r@[t] == self.mergeset_blues@[t],
                forall|t: int| 0 <= t < j ==> r@[nb + t] == self.mergeset_reds@[t],
            decreases nr - j,
        {
            r.push(self.mergeset_reds[j]);
            j += 1;
        }
        proof {
            assert(r@ =~= self.mergeset_blues@ + self.mergeset_reds@);
        }
        r
    }
}

/// The ascending mergeset and the unordered mergeset hold the same blocks:
/// without the selected parent, the hashes of the ascending view form the
/// same set as the blues after the selected parent together with the reds;
/// and with the selected parent in front, the same set as all blues together
/// with the reds.
pub proof fn lemma_ascending_matches_unordered(data: GhostdagData, gd: Map<BlockHash, GhostdagView>)
    requires
        data.mergeset_blues@.len() >= 1,
        data.mergeset_blues@[0] == data.selected_parent,
    ensures
        hashes_of(data.spec_ascending(gd)).to_set() == (data.mergeset_blues@.drop_first()
            + data.mergeset_reds@).to_set(),
        (seq![data.selected_parent] + hashes_of(data.spec_ascending(gd))).to_set() == (
        data.mergeset_blues@ + data.mergeset_reds@).to_set(),
{
    broadcast use vstd::seq_lib::group_to_multiset_ensures;

    let bs = data.mergeset_blues@.drop_first();
    let rs = data.mergeset_reds@;
    let sa = sortables_of(bs, gd);
    let sb = sortables_of(rs, gd);
    let m = data.spec_ascending(gd);
    lemma_merge_asc_multiset(sa, sb);
    assert forall|h: BlockHash| #[trigger] hashes_of(m).contains(h) implies (bs + rs).contains(
        h,
    ) by {
        let i = choose|i: int| 0 <= i < hashes_of(m).len() && hashes_of(m)[i] == h;
        let x = m[i];
        assert(m.contains(x));
        assert(m.to_multiset().count(x) > 0);
        assert((sa + sb).to_multiset().count(x) > 0);
        assert((sa + sb).contains(x));
        let j = choose|j: int| 0 <= j < (sa + sb).len() && (sa + sb)[j] == x;
        if j < sa.len() {
            assert(sa[j] == x);
            assert(bs[j] == x.hash);
            assert((bs + rs)[j] == h);
        } else {
            assert(sb[j - sa.len()] == x);
            assert(rs[j - sa.len()] == x.hash);
            assert((bs + rs)[j] == h);
        }
    }
    assert forall|h: BlockHash| #[trigger] (bs + rs).contains(h) implies hashes_of(m).contains(
        h,
    ) by {
        let j = choose|j: int| 0 <= j < (bs + rs).len() && (bs + rs)[j] == h;
        let x = if j < bs.len() {
            sa[j]
        } else {
            sb[j - bs.len()]
        };
        assert((sa + sb)[j] == x);
        assert((sa + sb).contains(x));
        assert((sa + sb).to_multiset().count(x) > 0);
        assert(m.to_multiset().count(x) > 0);
        assert(m.contains(x));
        let i = choose|i: int| 0 <= i < m.len() && m[i] == x;
        assert(hashes_of(m)[i] == h);
        assert(hashes_of(m).contains(h));
    }
    assert(hashes_of(m).to_set() =~= (bs + rs).to_set());
    let full = data.mergeset_blues@ + data.mergeset_reds@;
    let withsp = seq![data.selected_parent] + hashes_of(m);
    assert forall|h: BlockHash| #[trigger] withsp.contains(h) implies full.contains(h) by {
        let i = choose|i: int| 0 <= i < withsp.len() && withsp[i] == h;
        if i == 0 {
            assert(full[0] == h);
        } else {
            assert(hashes_of(m)[i - 1] == h);
            assert(hashes_of(m).contains(h));
            assert((bs + rs).contains(h));
            let j = choose|j: int| 0 <= j < (bs + rs).len() && (bs + rs)[j] == h;
            if j < bs.len() {
                assert(full[j + 1] == h);
            } else {
                assert(full[j + 1] == h);
            }
        }
    }
    assert forall|h: BlockHash| #[trigger] full.contains(h) implies withsp.contains(h) by {
        let j = choose|j: int| 0 <= j < full.len() && full[j] == h;
        if j == 0 {
            assert(withsp[0] == h);
        } else if j < data.mergeset_blues@.len() {
            assert((bs + rs)[j - 1] == h);
            assert((bs + rs).contains(h));
            assert(hashes_of(m).contains(h));
            let i = choose|i: int| 0 <= i < hashes_of(m).len() && hashes_of(m)[i] == h;
            assert(withsp[i + 1] == h);
        } else {
            assert((bs + rs)[j - 1] == h);
            assert((bs + rs).contains(h));
            assert(hashes_of(m).contains(h));
            let i = choose|i: int| 0 <= i < hashes_of(m).len() && hashes_of(m)[i] == h;
            assert(withsp[i + 1] == h);
        }
    }
    assert(withsp.to_set() =~= full.to_set());
}

} // verus!
