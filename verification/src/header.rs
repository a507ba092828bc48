//! Block data model: immutable headers with parents partitioned by DAG
//! level, transactions with their subnetwork and gas, and whole blocks.
use vstd::prelude::*;
use crate::hash::BlockHash;
use crate::subnets::SubnetworkId;

verus! {

/// The version of every transaction this core builds.
pub const TX_VERSION: u16 = 0;

/// The version of every header this core builds.
pub const BLOCK_VERSION: u16 = 1;

/// A transaction: the fields the consensus core reads. A transaction
/// references its subnetwork; built-in subnetworks use zero gas.
pub struct Transaction {
    pub version: u16,
    pub lock_time: u64,
    pub subnetwork_id: SubnetworkId,
    pub gas: u64,
    pub payload: Vec<u8>,
}

impl Transaction {
    /// Builds a transaction.
    pub fn new(
        version: u16,
        lock_time: u64,
        subnetwork_id: SubnetworkId,
        gas: u64,
        payload: Vec<u8>,
    ) -> (r: Transaction)
        ensures
            r.version == version,
            r.lock_time == lock_time,
            r.subnetwork_id@ == subnetwork_id@,
            r.gas == gas,
            r.payload@ == payload@,
    {
        Transaction { version, lock_time, subnetwork_id, gas, payload }
    }
}

/// A block header, immutable once accepted. `parents_by_level[0]` holds the
/// direct parents.
pub struct Header {
    pub version: u16,
    pub hash: BlockHash,
    pub parents_by_level: Vec<Vec<BlockHash>>,
    pub hash_merkle_root: BlockHash,
    pub accepted_id_merkle_root: BlockHash,
    pub utxo_commitment: BlockHash,
    pub timestamp: u64,
    pub nonce: u64,
    pub daa_score: u64,
    pub bits: u32,
    pub blue_work: u128,
    pub blue_score: u64,
    pub pruning_point: BlockHash,
}

impl Header {
    /// The direct parents of the block.
    pub fn direct_parents(&self) -> (r: &Vec<BlockHash>)
        requires
            self.parents_by_level@.len() >= 1,
        ensures
            r@ == self.spec_direct_parents(),
    {
        &self.parents_by_level[0]
    }

    /// The direct parents: the first level of the parent partition.
    pub open spec fn spec_direct_parents(&self) -> Seq<BlockHash> {
        self.parents_by_level@[0]@
    }
}

/// A block: a header and an ordered transaction list.
pub struct Block {
    pub header: Header,
    pub transactions: Vec<Transaction>,
}

impl Block {
    /// A block with the given header and no transactions.
    pub fn from_header(header: Header) -> (r: Block)
        ensures
            r.header == header,
            r.transactions@ == Seq::<Transaction>::empty(),
    {
        Block { header, transactions: Vec::new() }
    }

    /// A block with the given header and transactions.
    pub fn new(header: Header, transactions: Vec<Transaction>) -> (r: Block)
        ensures
            r.header == header,
            r.transactions == transactions,
    {
        Block { header, transactions }
    }

    /// The block's identifier: its precomputed header hash.
    pub fn hash(&self) -> (r: BlockHash)
        ensures
            r == self.header.hash,
    {
        self.header.hash
    }
}

/// A header with the given precomputed hash and direct parents; every other
/// field is zero.
pub fn header_from_precomputed_hash(hash: BlockHash, parents: Vec<BlockHash>) -> (r: Header)
    ensures
        r.version == BLOCK_VERSION,
        r.hash == hash,
        r.parents_by_level@.len() == 1,
        r.spec_direct_parents() == parents@,
        r.hash_merkle_root@ == zero_hash(),
        r.accepted_id_merkle_root@ == zero_hash(),
        r.utxo_commitment@ == zero_hash(),
        r.timestamp == 0,
        r.nonce == 0,
        r.daa_score == 0,
        r.bits == 0,
        r.blue_work == 0,
        r.blue_score == 0,
        r.pruning_point@ == zero_hash(),
{
    let zero = BlockHash::from_bytes([0u8; 32]);
    proof {
        assert(zero@ =~= zero_hash());
    }
    let mut parents_by_level: Vec<Vec<BlockHash>> = Vec::new();
    parents_by_level.push(parents);
    Header {
        version: BLOCK_VERSION,
        hash,
        parents_by_level,
        hash_merkle_root: zero,
        accepted_id_merkle_root: zero,
        utxo_commitment: zero,
        timestamp: 0,
        nonce: 0,
        daa_score: 0,
        bits: 0,
        blue_work: 0,
        blue_score: 0,
        pruning_point: zero,
    }
}

/// A block with the given precomputed hash and direct parents and no body.
pub fn block_from_precomputed_hash(hash: BlockHash, parents: Vec<BlockHash>) -> (r: Block)
    ensures
        r.header.hash == hash,
        r.header.parents_by_level@.len() == 1,
        r.header.spec_direct_parents() == parents@,
        r.transactions@ == Seq::<Transaction>::empty(),
{
    Block::from_header(header_from_precomputed_hash(hash, parents))
}

/// Thirty-two zero bytes.
pub open spec fn zero_hash() -> Seq<u8> {
    Seq::new(32, |i: int| 0u8)
}

} // verus!
