//! Error taxonomy: storage errors and the rule errors that block validation
//! surfaces to the pipeline's listeners.
use vstd::prelude::*;
use crate::hash::BlockHash;

verus! {

/// A failure of a consensus store.
#[derive(Clone, Copy, Debug, PartialEq, Eq)]
pub enum StoreError {
    /// The requested key is not present.
    KeyNotFound(BlockHash),
    /// The key is already present; per-hash records are append-only, so a
    /// second write to a key is refused.
    KeyAlreadyExists(BlockHash),
    /// A status write whose predecessor is not a valid prior status.
    InvalidStatusTransition(BlockHash),
}

/// A consensus rule violation, returned to the listeners of a block task.
#[derive(Debug, PartialEq, Eq)]
pub enum RuleError {
    /// The block was previously marked invalid.
    KnownInvalid,
    /// One or more direct parents are absent; the block may be retried when
    /// its parents arrive. Not fatal.
    MissingParents(Vec<BlockHash>),
    /// The body does not match the header's merkle root (expected, got); a
    /// body that fits may arrive later. Not fatal.
    BadMerkleRoot(BlockHash, BlockHash),
    /// The body is rejected because its height is below the pruning horizon;
    /// the header remains valid. Not fatal.
    PrunedBlock,
    /// The coinbase transaction is malformed or misplaced. Fatal.
    BadCoinbase,
    /// A transaction violates a rule, here a non-zero gas in a built-in
    /// subnetwork. Fatal.
    BadTransaction,
    /// The block's mass exceeds the configured maximum. Fatal.
    BadBlockMass,
    /// A storage failure surfaced through the pipeline.
    StoreFailure(StoreError),
}

impl RuleError {
    /// A fatal error marks the block `StatusInvalid`; `MissingParents`,
    /// `BadMerkleRoot` and `PrunedBlock` leave the status unchanged because
    /// the block may yet be accepted.
    pub fn is_fatal(&self) -> (r: bool)
        ensures
            r == spec_is_fatal(*self),
    {
        !matches!(
            self,
            RuleError::MissingParents(_) | RuleError::BadMerkleRoot(_, _) | RuleError::PrunedBlock
        )
    }
}

/// Which rule errors permanently invalidate a block.
pub open spec fn spec_is_fatal(e: RuleError) -> bool {
    !(e is MissingParents || e is BadMerkleRoot || e is PrunedBlock)
}

} // verus!
