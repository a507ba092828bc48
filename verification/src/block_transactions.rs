//! The block transactions store: hash to ordered transaction list,
//! append-only.
use vstd::prelude::*;
use crate::errors::StoreError;
use crate::hash::BlockHash;
use crate::header::Transaction;
use crate::vecmap::HashKeyMap;

verus! {

/// The per-block transaction store.
pub struct BlockTransactionsStore {
    map: HashKeyMap<Vec<Transaction>>,
}

impl View for BlockTransactionsStore {
    type V = Map<BlockHash, Vec<Transaction>>;

    closed spec fn view(&self) -> Map<BlockHash, Vec<Transaction>> {
        self.map@
    }
}

impl BlockTransactionsStore {
    /// The backing map keeps distinct keys.
    pub closed spec fn wf(&self) -> bool {
        self.map.wf()
    }

    /// An empty store.
    pub fn new() -> (r: BlockTransactionsStore)
        ensures
            r.wf(),
            r@ == Map::<BlockHash, Vec<Transaction>>::empty(),
    {
        BlockTransactionsStore { map: HashKeyMap::new() }
    }

    /// Whether the block's transactions are stored.
    pub fn has(&self, hash: BlockHash) -> (r: bool)
        requires
            self.wf(),
        ensures
            r == self@.contains_key(hash),
    {
        self.map.has(&hash)
    }

    /// The block's transactions.
    pub fn get(&self, hash: BlockHash) -> (r: Result<&Vec<Transaction>, StoreError>)
        requires
            self.wf(),
        ensures
            match r {
                Ok(v) => self@.contains_key(hash) && *v == self@[hash],
                Err(e) => !self@.contains_key(hash) && e == StoreError::KeyNotFound(hash),
            },
    {
        match self.map.get(&hash) {
            Some(v) => Ok(v),
            None => Err(StoreError::KeyNotFound(hash)),
        }
    }

    /// Stores the block's transactions; refuses a block whose transactions
    /// are already stored.
    pub fn insert(&mut self, hash: BlockHash, transactions: Vec<Transaction>) -> (r: Result<
        (),
        StoreError,
    >)
        requires
            old(self).wf(),
        ensures
            final(self).wf(),
            match r {
                Ok(()) => !old(self)@.contains_key(hash) && final(self)@ == old(self)@.insert(
                    hash,
                    transactions,
                ),
                Err(e) => old(self)@.contains_key(hash) && e == StoreError::KeyAlreadyExists(hash)
                    && final(self)@ == old(self)@,
            },
    {
        self.map.insert_new(hash, transactions)
    }
}

} // verus!
