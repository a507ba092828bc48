//! The depth store: per block, its merge-depth root and finality point,
//! append-only.
use vstd::prelude::*;
use crate::errors::StoreError;
use crate::hash::BlockHash;
use crate::vecmap::HashKeyMap;

verus! {

/// The per-block depth anchors: the merge-depth root and the finality point,
/// both blocks of the selected chain.
#[derive(Clone, Copy, Debug, PartialEq, Eq)]
pub struct BlockDepthInfo {
    pub merge_depth_root: BlockHash,
    pub finality_point: BlockHash,
}

/// The per-block depth store.
pub struct DepthStore {
    map: HashKeyMap<BlockDepthInfo>,
}

impl View for DepthStore {
    type V = Map<BlockHash, BlockDepthInfo>;

    closed spec fn view(&self) -> Map<BlockHash, BlockDepthInfo> {
        self.map@
    }
}

impl DepthStore {
    /// The backing map keeps distinct keys.
    pub closed spec fn wf(&self) -> bool {
        self.map.wf()
    }

    /// An empty store.
    pub fn new() -> (r: DepthStore)
        ensures
            r.wf(),
            r@ == Map::<BlockHash, BlockDepthInfo>::empty(),
    {
        DepthStore { map: HashKeyMap::new() }
    }

    /// The block's merge-depth root.
    pub fn merge_depth_root(&self, hash: BlockHash) -> (r: Result<BlockHash, StoreError>)
        requires
            self.wf(),
        ensures
            match r {
                Ok(h) => self@.contains_key(hash) && h == self@[hash].merge_depth_root,
                Err(e) => !self@.contains_key(hash) && e == StoreError::KeyNotFound(hash),
            },
    {
        match self.map.get(&hash) {
            Some(info) => Ok(info.merge_depth_root),
            None => Err(StoreError::KeyNotFound(hash)),
        }
    }

    /// The block's finality point.
    pub fn finality_point(&self, hash: BlockHash) -> (r: Result<BlockHash, StoreError>)
        requires
            self.wf(),
        ensures
            match r {
                Ok(h) => self@.contains_key(hash) && h == self@[hash].finality_point,
                Err(e) => !self@.contains_key(hash) && e == StoreError::KeyNotFound(hash),
            },
    {
        match self.map.get(&hash) {
            Some(info) => Ok(info.finality_point),
            None => Err(StoreError::KeyNotFound(hash)),
        }
    }

    /// Stores the block's depth anchors; refuses a block whose anchors are
    /// already stored.
    pub fn insert(
        &mut self,
        hash: BlockHash,
        merge_depth_root: BlockHash,
        finality_point: BlockHash,
    ) -> (r: Result<(), StoreError>)
        requires
            old(self).wf(),
        ensures
            final(self).wf(),
            match r {
                Ok(()) => !old(self)@.contains_key(hash) && final(self)@ == old(self)@.insert(
                    hash,
                    (BlockDepthInfo { merge_depth_root, finality_point }),
                ),
                Err(e) => old(self)@.contains_key(hash) && e == StoreError::KeyAlreadyExists(hash)
                    && final(self)@ == old(self)@,
            },
    {
        self.map.insert_new(hash, BlockDepthInfo { merge_depth_root, finality_point })
    }
}

} // verus!
