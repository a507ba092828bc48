//! Block status: the per-block state machine that the processing pipeline
//! advances from header acceptance through body acceptance to UTXO validity.
use vstd::prelude::*;

verus! {

/// The validation state of a block.
#[derive(Clone, Copy, Debug, PartialEq, Eq, Structural)]
pub enum BlockStatus {
    /// The block is permanently rejected.
    StatusInvalid,
    /// The block is valid from any UTXO related aspects and has passed all
    /// other validations as well.
    StatusUTXOValid,
    /// The block's body is accepted but it is still pending verification
    /// against its past UTXO-set.
    StatusUTXOPendingVerification,
    /// The block's body is valid but the block is not eligible to be a
    /// selected parent.
    StatusDisqualifiedFromChain,
    /// Only the block's header is held (pruned, or the body was not added yet).
    StatusHeaderOnly,
}

/// Which statuses carry a block body.
pub open spec fn spec_has_block_body(s: BlockStatus) -> bool {
    s == BlockStatus::StatusUTXOValid || s == BlockStatus::StatusUTXOPendingVerification || s
        == BlockStatus::StatusDisqualifiedFromChain
}

/// The status table: which status may be written over which prior status.
/// `None` stands for a key not yet present. A key is created only as
/// `StatusHeaderOnly`; any present status may fall to `StatusInvalid`;
/// otherwise only `StatusHeaderOnly -> StatusUTXOPendingVerification` and
/// `StatusUTXOPendingVerification -> {StatusUTXOValid,
/// StatusDisqualifiedFromChain}` are allowed.
pub open spec fn spec_valid_transition(from: Option<BlockStatus>, to: BlockStatus) -> bool {
    match from {
        None => to == BlockStatus::StatusHeaderOnly,
        Some(f) => to == BlockStatus::StatusInvalid || (f == BlockStatus::StatusHeaderOnly && to
            == BlockStatus::StatusUTXOPendingVerification) || (f
            == BlockStatus::StatusUTXOPendingVerification && (to == BlockStatus::StatusUTXOValid
            || to == BlockStatus::StatusDisqualifiedFromChain)),
    }
}

impl BlockStatus {
    /// True exactly for the statuses that have a stored body.
    pub fn has_block_body(self) -> (r: bool)
        ensures
            r == spec_has_block_body(self),
    {
        matches!(
            self,
            Self::StatusUTXOValid | Self::StatusUTXOPendingVerification
                | Self::StatusDisqualifiedFromChain
        )
    }

    /// True exactly for `StatusUTXOValid` and `StatusUTXOPendingVerification`.
    pub fn is_utxo_valid_or_pending(self) -> (r: bool)
        ensures
            r == (self == BlockStatus::StatusUTXOValid || self
                == BlockStatus::StatusUTXOPendingVerification),
    {
        matches!(self, Self::StatusUTXOValid | Self::StatusUTXOPendingVerification)
    }

    /// True iff writing `self` over prior status `from` obeys the status table.
    pub fn is_valid_successor_of(self, from: Option<BlockStatus>) -> (r: bool)
        ensures
            r == spec_valid_transition(from, self),
    {
        match from {
            None => matches!(self, Self::StatusHeaderOnly),
            Some(f) => matches!(self, Self::StatusInvalid) || (matches!(f, Self::StatusHeaderOnly)
                && matches!(self, Self::StatusUTXOPendingVerification)) || (matches!(
                f,
                Self::StatusUTXOPendingVerification,
            ) && matches!(self, Self::StatusUTXOValid | Self::StatusDisqualifiedFromChain)),
        }
    }
}

} // verus!
