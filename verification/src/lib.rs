//! Core of a BlockDAG consensus node: GHOSTDAG ordering data, block status
//! state machine, append-only consensus stores, and the block-processing
//! pipeline's dependency manager and body stage.
pub mod block_transactions;
pub mod body_processor;
pub mod depth;
pub mod deps_manager;
pub mod errors;
pub mod ghostdag;
pub mod ghostdag_store;
pub mod hash;
pub mod header;
pub mod ordering;
pub mod protocol;
pub mod reachability;
pub mod status;
pub mod statuses;
pub mod subnets;
pub mod tips;
pub mod vecmap;
