//! The block status store: single-writer state machine whose writes are
//! validated against the status transition table.
use vstd::prelude::*;
use crate::errors::StoreError;
use crate::hash::BlockHash;
use crate::status::BlockStatus;
use crate::status::spec_valid_transition;
use crate::vecmap::HashKeyMap;

verus! {

/// The per-block status store.
pub struct StatusesStore {
    map: HashKeyMap<BlockStatus>,
}

impl View for StatusesStore {
    type V = Map<BlockHash, BlockStatus>;

    closed spec fn view(&self) -> Map<BlockHash, BlockStatus> {
        self.map@
    }
}

impl StatusesStore {
    /// The backing map keeps distinct keys.
    pub closed spec fn wf(&self) -> bool {
        self.map.wf()
    }

    /// An empty store.
    pub fn new() -> (r: StatusesStore)
        ensures
            r.wf(),
            r@ == Map::<BlockHash, BlockStatus>::empty(),
    {
        StatusesStore { map: HashKeyMap::new() }
    }

    /// The status of the block, if any.
    pub fn get(&self, hash: BlockHash) -> (r: Result<BlockStatus, StoreError>)
        requires
            self.wf(),
        ensures
            match r {
                Ok(s) => self@.contains_key(hash) && s == self@[hash],
                Err(e) => !self@.contains_key(hash) && e == StoreError::KeyNotFound(hash),
            },
    {
        match self.map.get(&hash) {
            Some(s) => Ok(*s),
            None => Err(StoreError::KeyNotFound(hash)),
        }
    }

    /// Whether the block has a status.
    pub fn has(&self, hash: BlockHash) -> (r: bool)
        requires
            self.wf(),
        ensures
            r == self@.contains_key(hash),
    {
        self.map.has(&hash)
    }

    /// Writes a status. The write succeeds exactly when the transition table
    /// allows the new status over the present one (or over no status at all);
    /// otherwise the store is unchanged and the write fails.
    pub fn set(&mut self, hash: BlockHash, status: BlockStatus) -> (r: Result<(), StoreError>)
        requires
            old(self).wf(),
        ensures
            final(self).wf(),
            match r {
                Ok(()) => spec_valid_transition(spec_status_of(old(self)@, hash), status)
                    && final(self)@ == old(self)@.insert(hash, status),
                Err(e) => !spec_valid_transition(spec_status_of(old(self)@, hash), status) && e
                    == StoreError::InvalidStatusTransition(hash) && final(self)@ == old(self)@,
            },
    {
        let from = match self.map.get(&hash) {
            Some(s) => Some(*s),
            None => None,
        };
        if status.is_valid_successor_of(from) {
            self.map.upsert(hash, status);
            Ok(())
        } else {
            Err(StoreError::InvalidStatusTransition(hash))
        }
    }
}

/// The present status of `hash`, if one is recorded.
pub open spec fn spec_status_of(m: Map<BlockHash, BlockStatus>, hash: BlockHash) -> Option<
    BlockStatus,
> {
    if m.contains_key(hash) {
        Some(m[hash])
    } else {
        None
    }
}

} // verus!
