//! The body stage of the processing pipeline: validates block bodies,
//! commits accepted bodies atomically to the transaction, tips and status
//! stores, and synthesizes the genesis coinbase when needed.
use vstd::prelude::*;
use crate::errors::RuleError;
use crate::errors::spec_is_fatal;
use crate::hash::BlockHash;
use crate::hash::copy_hashes;
use crate::header::Block;
use crate::header::Transaction;
use crate::header::TX_VERSION;
use crate::block_transactions::BlockTransactionsStore;
use crate::status::BlockStatus;
use crate::status::spec_has_block_body;
use crate::statuses::StatusesStore;
use crate::subnets::spec_is_builtin;
use crate::subnets::spec_subnetwork_id_coinbase;
use crate::subnets::subnetwork_id_coinbase;
use crate::tips::TipsStore;

verus! {

/// The little-endian bytes of a 64-bit word.
pub open spec fn spec_u64_le(v: u64) -> Seq<u8> {
    Seq::new(8, |i: int| (((v >> ((8 * i) as u64)) & 0xff) as u8))
}

/// The little-endian bytes of a 16-bit word.
pub open spec fn spec_u16_le(v: u16) -> Seq<u8> {
    Seq::new(2, |i: int| (((v >> ((8 * i) as u16)) & 0xff) as u8))
}

/// The coinbase payload layout: blue score, then subsidy, both as eight
/// little-endian bytes, then two script version bytes, one script length
/// byte, the script, and the ASCII network tag.
pub open spec fn spec_coinbase_payload(
    blue_score: u64,
    subsidy: u64,
    script_version: u16,
    script: Seq<u8>,
    network_tag: Seq<u8>,
) -> Seq<u8> {
    spec_u64_le(blue_score) + spec_u64_le(subsidy) + spec_u16_le(script_version) + seq![
        script.len() as u8,
    ] + script + network_tag
}

/// The network tag of the devnet, as ASCII bytes.
pub open spec fn spec_devnet_tag() -> Seq<u8> {
    seq![0x6bu8, 0x61u8, 0x73u8, 0x70u8, 0x61u8, 0x2du8, 0x64u8, 0x65u8, 0x76u8, 0x6eu8, 0x65u8, 0x74u8]
}

/// The payload of the devnet genesis coinbase: blue score zero, the initial
/// subsidy, script version zero, and a one-byte script.
pub open spec fn spec_genesis_coinbase_payload() -> Seq<u8> {
    spec_coinbase_payload(0, 100000000, 0, seq![0u8], spec_devnet_tag())
}

/// Two transactions carry the same content.
pub open spec fn tx_eq(a: Transaction, b: Transaction) -> bool {
    a.version == b.version && a.lock_time == b.lock_time && a.subnetwork_id@ == b.subnetwork_id@
        && a.gas == b.gas && a.payload@ == b.payload@
}

/// Two transaction lists carry the same content, in the same order.
pub open spec fn txs_equiv(a: Seq<Transaction>, b: Seq<Transaction>) -> bool {
    a.len() == b.len() && (forall|i: int| 0 <= i < a.len() ==> tx_eq(#[trigger] a[i], b[i]))
}

/// The first transaction is the block's one coinbase transaction.
pub open spec fn spec_coinbase_ok(txs: Seq<Transaction>) -> bool {
    txs.len() >= 1 && txs[0].subnetwork_id@ == spec_subnetwork_id_coinbase() && (forall|i: int|
        1 <= i < txs.len() ==> txs[i].subnetwork_id@ != spec_subnetwork_id_coinbase())
}

/// Transactions in built-in subnetworks use zero gas.
pub open spec fn spec_gas_ok(txs: Seq<Transaction>) -> bool {
    forall|i: int|
        0 <= i < txs.len() && spec_is_builtin(#[trigger] txs[i].subnetwork_id@) ==> txs[i].gas == 0
}

/// The direct parents that have no recorded status yet, in parent order.
pub open spec fn spec_missing_parents(
    parents: Seq<BlockHash>,
    st: Map<BlockHash, BlockStatus>,
) -> Seq<BlockHash>
    decreases parents.len(),
{
    if parents.len() == 0 {
        Seq::empty()
    } else {
        let rest = spec_missing_parents(parents.drop_last(), st);
        if !st.contains_key(parents.last()) {
            rest.push(parents.last())
        } else {
            rest
        }
    }
}

/// All body checks pass: the coinbase is well placed, gas rules hold, the
/// body matches the header's merkle root, the mass is within bounds, and
/// every direct parent is known.
pub open spec fn spec_body_ok(
    block: Block,
    computed_merkle_root: BlockHash,
    block_mass: u64,
    max_block_mass: u64,
    st: Map<BlockHash, BlockStatus>,
) -> bool {
    &&& spec_coinbase_ok(block.transactions@)
    &&& spec_gas_ok(block.transactions@)
    &&& computed_merkle_root == block.header.hash_merkle_root
    &&& block_mass <= max_block_mass
    &&& spec_missing_parents(block.header.spec_direct_parents(), st).len() == 0
}

/// The error that body validation returns, checked in this order: coinbase
/// placement, gas rules, merkle root, block mass, missing parents.
pub open spec fn spec_body_verdict(
    e: RuleError,
    block: Block,
    computed_merkle_root: BlockHash,
    block_mass: u64,
    max_block_mass: u64,
    st: Map<BlockHash, BlockStatus>,
) -> bool {
    match e {
        RuleError::BadCoinbase => !spec_coinbase_ok(block.transactions@),
        RuleError::BadTransaction => spec_coinbase_ok(block.transactions@) && !spec_gas_ok(
            block.transactions@,
        ),
        RuleError::BadMerkleRoot(expected, got) => spec_coinbase_ok(block.transactions@)
            && spec_gas_ok(block.transactions@) && computed_merkle_root
            != block.header.hash_merkle_root && expected == block.header.hash_merkle_root && got
            == computed_merkle_root,
        RuleError::BadBlockMass => spec_coinbase_ok(block.transactions@) && spec_gas_ok(
            block.transactions@,
        ) && computed_merkle_root == block.header.hash_merkle_root && block_mass > max_block_mass,
        RuleError::MissingParents(v) => spec_coinbase_ok(block.transactions@) && spec_gas_ok(
            block.transactions@,
        ) && computed_merkle_root == block.header.hash_merkle_root && block_mass <= max_block_mass
            && v@ == spec_missing_parents(block.header.spec_direct_parents(), st) && v@.len() > 0,
        _ => false,
    }
}

/// The little-endian bytes of a 64-bit word.
fn u64_le_bytes(v: u64) -> (r: Vec<u8>)
    ensures
        r@ == spec_u64_le(v),
{
    let mut r: Vec<u8> = Vec::new();
    let mut i: usize = 0;
    while i < 8
        invariant
            i <= 8,
            r@.len() == i,
            forall|j: int| 0 <= j < i ==> r@[j] == spec_u64_le(v)[j],
        decreases 8 - i,
    {
        r.push(((v >> ((8 * i) as u64)) & 0xff) as u8);
        i += 1;
    }
    proof {
        assert(r@ =~= spec_u64_le(v));
    }
    r
}

/// The little-endian bytes of a 16-bit word.
fn u16_le_bytes(v: u16) -> (r: Vec<u8>)
    ensures
        r@ == spec_u16_le(v),
{
    let mut r: Vec<u8> = Vec::new();
    r.push(((v >> 0u16) & 0xff) as u8);
    r.push(((v >> 8u16) & 0xff) as u8);
    proof {
        assert(r@ =~= spec_u16_le(v));
    }
    r
}

/// Builds a coinbase payload in the network's layout.
pub fn build_coinbase_payload(
    blue_score: u64,
    subsidy: u64,
    script_version: u16,
    script: &Vec<u8>,
    network_tag: &Vec<u8>,
) -> (r: Vec<u8>)
    requires
        script@.len() <= 255,
    ensures
        r@ == spec_coinbase_payload(blue_score, subsidy, script_version, script@, network_tag@),
{
    let mut r = u64_le_bytes(blue_score);
    let mut part = u64_le_bytes(subsidy);
    r.append(&mut part);
    let mut version_part = u16_le_bytes(script_version);
    r.append(&mut version_part);
    r.push(script.len() as u8);
    let mut i: usize = 0;
    let n = script.len();
    let ghost prefix = spec_u64_le(blue_score) + spec_u64_le(subsidy) + spec_u16_le(script_version)
        + seq![script@.len() as u8];
    proof {
        assert(r@ =~= prefix);
    }
    while i < n
        invariant
            n == script@.len(),
            i <= n,
            r@ == prefix + script@.subrange(0, i as int),
        decreases n - i,
    {
        r.push(script[i]);
        proof {
            assert(r@ =~= prefix + script@.subrange(0, i + 1));
        }
        i += 1;
    }
    let m = network_tag.len();
    let mut j: usize = 0;
    proof {
        assert(script@.subrange(0, n as int) =~= script@);
    }
    while j < m
        invariant
            n == script@.len(),
            m == network_tag@.len(),
            j <= m,
            r@ == prefix + script@ + network_tag@.subrange(0, j as int),
        decreases m - j,
    {
        r.push(network_tag[j]);
        proof {
            assert(r@ =~= prefix + script@ + network_tag@.subrange(0, j + 1));
        }
        j += 1;
    }
    proof {
        assert(network_tag@.subrange(0, m as int) =~= network_tag@);
        assert(r@ =~= spec_coinbase_payload(
            blue_score,
            subsidy,
            script_version,
            script@,
            network_tag@,
        ));
    }
    r
}

/// The body stage: the stores it may mutate and its configuration. The
/// channel plumbing, thread pool and dependency manager around it belong to
/// the pipeline's driver, which serializes each block's stage operations.
pub struct BlockBodyProcessor {
    pub max_block_mass: u64,
    pub genesis_hash: BlockHash,
    pub statuses_store: StatusesStore,
    pub block_transactions_store: BlockTransactionsStore,
    pub body_tips_store: TipsStore,
}

impl BlockBodyProcessor {
    /// The stores are well formed and agree: a block has stored transactions
    /// exactly while its status says it has a body, and every tip has a body.
    pub open spec fn wf(&self) -> bool {
        &&& self.statuses_store.wf()
        &&& self.block_transactions_store.wf()
        &&& forall|h: BlockHash|
            #[trigger] self.block_transactions_store@.contains_key(h)
                ==> self.statuses_store@.contains_key(h) && spec_has_block_body(
                self.statuses_store@[h],
            )
        &&& forall|h: BlockHash|
            #[trigger] self.body_tips_store@.contains(h) ==> self.statuses_store@.contains_key(h)
                && spec_has_block_body(self.statuses_store@[h])
    }

    /// A body stage over empty stores.
    pub fn new(max_block_mass: u64, genesis_hash: BlockHash) -> (r: BlockBodyProcessor)
        ensures
            r.wf(),
            r.max_block_mass == max_block_mass,
            r.genesis_hash == genesis_hash,
            r.statuses_store@ == Map::<BlockHash, BlockStatus>::empty(),
            r.block_transactions_store@ == Map::<BlockHash, Vec<Transaction>>::empty(),
            r.body_tips_store@ == Set::<BlockHash>::empty(),
    {
        BlockBodyProcessor {
            max_block_mass,
            genesis_hash,
            statuses_store: StatusesStore::new(),
            block_transactions_store: BlockTransactionsStore::new(),
            body_tips_store: TipsStore::new(),
        }
    }

    /// Validates a block body, first in isolation (coinbase placement, gas
    /// rules, the merkle root computed from the transactions against the
    /// header, mass), then in context (all direct parents known).
    pub fn validate_body(
        &self,
        block: &Block,
        computed_merkle_root: BlockHash,
        block_mass: u64,
    ) -> (r: Result<(), RuleError>)
        requires
            self.wf(),
            block.header.parents_by_level@.len() >= 1,
        ensures
            match r {
                Ok(()) => spec_body_ok(
                    *block,
                    computed_merkle_root,
                    block_mass,
                    self.max_block_mass,
                    self.statuses_store@,
                ),
                Err(e) => spec_body_verdict(
                    e,
                    *block,
                    computed_merkle_root,
                    block_mass,
                    self.max_block_mass,
                    self.statuses_store@,
                ),
            },
    {
        let txs = &block.transactions;
        let ntx = txs.len();
        let coinbase = subnetwork_id_coinbase();
        if ntx == 0 {
            return Err(RuleError::BadCoinbase);
        }
        if !txs[0].subnetwork_id.eq_id(&coinbase) {
            return Err(RuleError::BadCoinbase);
        }
        let mut i: usize = 1;
        while i < ntx
            invariant
                ntx == txs@.len(),
                txs@ == block.transactions@,
                1 <= i <= ntx,
                coinbase@ == spec_subnetwork_id_coinbase(),
                forall|j: int|
                    1 <= j < i ==> (#[trigger] txs@[j].subnetwork_id)@
                        != spec_subnetwork_id_coinbase(),
            decreases ntx - i,
        {
            if txs[i].subnetwork_id.eq_id(&coinbase) {
                proof {
                    assert(txs@[i as int].subnetwork_id@ == spec_subnetwork_id_coinbase());
                    assert(!spec_coinbase_ok(txs@));
                }
                return Err(RuleError::BadCoinbase);
            }
            i += 1;
        }
        let mut k: usize = 0;
        while k < ntx
            invariant
                ntx == txs@.len(),
                txs@ == block.transactions@,
                k <= ntx,
                spec_coinbase_ok(txs@),
                forall|j: int|
                    0 <= j < k && spec_is_builtin((#[trigger] txs@[j].subnetwork_id)@)
                        ==> txs@[j].gas == 0,
            decreases ntx - k,
        {
            if txs[k].subnetwork_id.is_builtin() && txs[k].gas != 0 {
                proof {
                    assert(spec_is_builtin(txs@[k as int].subnetwork_id@) && txs@[k as int].gas
                        != 0);
                    assert(!spec_gas_ok(txs@));
                }
                return Err(RuleError::BadTransaction);
            }
            k += 1;
        }
        if !computed_merkle_root.eq_hash(&block.header.hash_merkle_root) {
            return Err(RuleError::BadMerkleRoot(block.header.hash_merkle_root, computed_merkle_root));
        }
        if block_mass > self.max_block_mass {
            return Err(RuleError::BadBlockMass);
        }
        let parents = block.header.direct_parents();
        let np = parents.len();
        let mut missing: Vec<BlockHash> = Vec::new();
        let mut t: usize = 0;
        proof {
            assert(spec_missing_parents(parents@.subrange(0, 0), self.statuses_store@)
                =~= missing@);
        }
        while t < np
            invariant
                np == parents@.len(),
                t <= np,
                self.wf(),
                missing@ == spec_missing_parents(
                    parents@.subrange(0, t as int),
                    self.statuses_store@,
                ),
            decreases np - t,
        {
            let p = parents[t];
            proof {
                assert(parents@.subrange(0, t + 1).drop_last() =~= parents@.subrange(0, t as int));
                assert(parents@.subrange(0, t + 1).last() == parents@[t as int]);
            }
            if !self.statuses_store.has(p) {
                missing.push(p);
            }
            t += 1;
        }
        proof {
            assert(parents@.subrange(0, np as int) =~= parents@);
        }
        if missing.len() > 0 {
            return Err(RuleError::MissingParents(missing));
        }
        Ok(())
    }

    /// Commits an accepted body in one logical step: stores the transactions,
    /// makes the block a tip while removing its parents from the tips, and
    /// advances the status to pending UTXO verification. Afterwards the block
    /// is a tip and none of its direct parents is.
    pub fn commit_body(
        &mut self,
        hash: BlockHash,
        parents: &Vec<BlockHash>,
        transactions: Vec<Transaction>,
    )
        requires
            old(self).wf(),
            old(self).statuses_store@.contains_key(hash),
            old(self).statuses_store@[hash] == BlockStatus::StatusHeaderOnly,
            !parents@.contains(hash),
        ensures
            final(self).wf(),
            final(self).max_block_mass == old(self).max_block_mass,
            final(self).genesis_hash == old(self).genesis_hash,
            final(self).statuses_store@ == old(self).statuses_store@.insert(
                hash,
                BlockStatus::StatusUTXOPendingVerification,
            ),
            final(self).block_transactions_store@ == old(self).block_transactions_store@.insert(
                hash,
                transactions,
            ),
            final(self).body_tips_store@ == old(self).body_tips_store@.difference(
                parents@.to_set(),
            ).insert(hash),
            final(self).body_tips_store@.contains(hash),
            forall|i: int|
                0 <= i < parents@.len() ==> !final(self).body_tips_store@.contains(
                    #[trigger] parents@[i],
                ),
    {
        proof {
            assert(!spec_has_block_body(old(self).statuses_store@[hash]));
            assert(!old(self).block_transactions_store@.contains_key(hash));
        }
        match self.block_transactions_store.insert(hash, transactions) {
            Ok(()) => {},
            Err(_) => {
                proof {
                    assert(false);
                }
            },
        }
        self.body_tips_store.add_tip(hash, parents);
        match self.statuses_store.set(hash, BlockStatus::StatusUTXOPendingVerification) {
            Ok(()) => {},
            Err(_) => {
                proof {
                    assert(false);
                }
            },
        }
    }

    /// Processes one block's body: reads the status, is idempotent for a
    /// block that already has a body, surfaces a previously invalid block,
    /// validates the body of a header-only block and either commits it or
    /// returns the rule error, marking the block invalid exactly when the
    /// error is fatal.
    pub fn process_block_body(
        &mut self,
        block: &Block,
        computed_merkle_root: BlockHash,
        block_mass: u64,
    ) -> (r: Result<BlockStatus, RuleError>)
        requires
            old(self).wf(),
            block.header.parents_by_level@.len() >= 1,
            old(self).statuses_store@.contains_key(block.header.hash),
            !block.header.spec_direct_parents().contains(block.header.hash),
        ensures
            final(self).wf(),
            final(self).max_block_mass == old(self).max_block_mass,
            final(self).genesis_hash == old(self).genesis_hash,
            old(self).statuses_store@[block.header.hash] == BlockStatus::StatusInvalid ==> r
                == Result::<BlockStatus, RuleError>::Err(RuleError::KnownInvalid) && *final(self)
                == *old(self),
            spec_has_block_body(old(self).statuses_store@[block.header.hash]) ==> r == Result::<
                BlockStatus,
                RuleError,
            >::Ok(old(self).statuses_store@[block.header.hash]) && *final(self) == *old(self),
            old(self).statuses_store@[block.header.hash] == BlockStatus::StatusHeaderOnly
                ==> match r {
                Ok(s) => s == BlockStatus::StatusUTXOPendingVerification && spec_body_ok(
                    *block,
                    computed_merkle_root,
                    block_mass,
                    old(self).max_block_mass,
                    old(self).statuses_store@,
                ) && final(self).statuses_store@ == old(self).statuses_store@.insert(
                    block.header.hash,
                    BlockStatus::StatusUTXOPendingVerification,
                ) && txs_equiv(
                    final(self).block_transactions_store@[block.header.hash]@,
                    block.transactions@,
                ) && final(self).body_tips_store@ == old(self).body_tips_store@.difference(block.header.spec_direct_parents().to_set()).insert(
                    block.header.hash,
                ) && final(self).body_tips_store@.contains(block.header.hash) && (forall|i: int|
                    0 <= i < block.header.spec_direct_parents().len() ==> !final(self).body_tips_store@.contains(#[trigger] block.header.spec_direct_parents()[i])),
                Err(e) => spec_body_verdict(
                    e,
                    *block,
                    computed_merkle_root,
                    block_mass,
                    old(self).max_block_mass,
                    old(self).statuses_store@,
                ) && (spec_is_fatal(e) ==> final(self).statuses_store@ == old(self).statuses_store@.insert(block.header.hash, BlockStatus::StatusInvalid) && final(self).block_transactions_store@ == old(self).block_transactions_store@ && final(self).body_tips_store@ == old(self).body_tips_store@) && (!spec_is_fatal(e) ==> *final(self) == *old(self)),
            },
    {
        let hash = block.hash();
        let status = match self.statuses_store.get(hash) {
            Ok(s) => s,
            Err(_) => {
                proof {
                    assert(false);
                }
                vstd::pervasive::unreached()
            },
        };
        if matches!(status, BlockStatus::StatusInvalid) {
            return Err(RuleError::KnownInvalid);
        }
        if status.has_block_body() {
            return Ok(status);
        }
        proof {
            assert(status == BlockStatus::StatusHeaderOnly);
        }
        match self.validate_body(block, computed_merkle_root, block_mass) {
            Ok(()) => {},
            Err(e) => {
                // A missing parent may yet arrive, a fitting body may yet be
                // seen for this header, and a pruned body leaves the header
                // valid; everything else is final.
                if e.is_fatal() {
                    match self.statuses_store.set(hash, BlockStatus::StatusInvalid) {
                        Ok(()) => {},
                        Err(_) => {
                            proof {
                                assert(false);
                            }
                        },
                    }
                }
                return Err(e);
            },
        }
        let parents = block.header.direct_parents();
        let transactions = copy_transactions(&block.transactions);
        let parents_copy = copy_hashes(parents);
        self.commit_body(hash, &parents_copy, transactions);
        Ok(BlockStatus::StatusUTXOPendingVerification)
    }

    /// If the genesis block is still header-only, resets the body tips and
    /// commits a synthesized coinbase-only body for it; a genesis that
    /// already has a body is left as it is.
    pub fn process_genesis_if_needed(&mut self)
        requires
            old(self).wf(),
            old(self).statuses_store@.contains_key(old(self).genesis_hash),
            old(self).statuses_store@[old(self).genesis_hash] == BlockStatus::StatusHeaderOnly
                || spec_has_block_body(old(self).statuses_store@[old(self).genesis_hash]),
        ensures
            final(self).wf(),
            final(self).max_block_mass == old(self).max_block_mass,
            final(self).genesis_hash == old(self).genesis_hash,
            spec_has_block_body(old(self).statuses_store@[old(self).genesis_hash]) ==> *final(self)
                == *old(self),
            old(self).statuses_store@[old(self).genesis_hash] == BlockStatus::StatusHeaderOnly
                ==> final(self).statuses_store@ == old(self).statuses_store@.insert(
                old(self).genesis_hash,
                BlockStatus::StatusUTXOPendingVerification,
            ) && final(self).body_tips_store@ == Set::<BlockHash>::empty().insert(
                old(self).genesis_hash,
            ) && final(self).block_transactions_store@.contains_key(old(self).genesis_hash) && {
                let txs = final(self).block_transactions_store@[old(self).genesis_hash]@;
                txs.len() == 1 && txs[0].version == TX_VERSION && txs[0].lock_time == 0
                    && txs[0].subnetwork_id@ == spec_subnetwork_id_coinbase() && txs[0].gas == 0
                    && txs[0].payload@ == spec_genesis_coinbase_payload()
            },
    {
        let status = match self.statuses_store.get(self.genesis_hash) {
            Ok(s) => s,
            Err(_) => {
                proof {
                    assert(false);
                }
                vstd::pervasive::unreached()
            },
        };
        if status.has_block_body() {
            return ;
        }
        proof {
            assert(status == BlockStatus::StatusHeaderOnly);
        }
        self.body_tips_store.init(Vec::new());
        proof {
            assert(self.body_tips_store@ =~= Set::<BlockHash>::empty());
        }
        let mut script: Vec<u8> = Vec::new();
        script.push(0u8);
        let mut tag: Vec<u8> = Vec::new();
        tag.push(0x6bu8);
        tag.push(0x61u8);
        tag.push(0x73u8);
        tag.push(0x70u8);
        tag.push(0x61u8);
        tag.push(0x2du8);
        tag.push(0x64u8);
        tag.push(0x65u8);
        tag.push(0x76u8);
        tag.push(0x6eu8);
        tag.push(0x65u8);
        tag.push(0x74u8);
        proof {
            assert(script@ =~= seq![0u8]);
            assert(tag@ =~= spec_devnet_tag());
        }
        let payload = build_coinbase_payload(0, 100000000, 0, &script, &tag);
        let genesis_coinbase = Transaction::new(
            TX_VERSION,
            0,
            subnetwork_id_coinbase(),
            0,
            payload,
        );
        let mut txs: Vec<Transaction> = Vec::new();
        txs.push(genesis_coinbase);
        let genesis = self.genesis_hash;
        let no_parents: Vec<BlockHash> = Vec::new();
        self.commit_body(genesis, &no_parents, txs);
        proof {
            assert(no_parents@.to_set() =~= Set::<BlockHash>::empty());
            assert(self.body_tips_store@ =~= Set::<BlockHash>::empty().insert(genesis));
        }
    }
}

/// Copies a transaction list.
fn copy_transactions(txs: &Vec<Transaction>) -> (r: Vec<Transaction>)
    ensures
        txs_equiv(r@, txs@),
{
    let n = txs.len();
    let mut r: Vec<Transaction> = Vec::new();
    let mut i: usize = 0;
    while i < n
        invariant
            n == txs@.len(),
            i <= n,
            r@.len() == i,
            forall|j: int| 0 <= j < i ==> tx_eq(#[trigger] r@[j], txs@[j]),
        decreases n - i,
    {
        let t = &txs[i];
        let mut payload: Vec<u8> = Vec::new();
        let m = t.payload.len();
        let mut j: usize = 0;
        while j < m
            invariant
                m == t.payload@.len(),
                j <= m,
                payload@ == t.payload@.subrange(0, j as int),
            decreases m - j,
        {
            payload.push(t.payload[j]);
            proof {
                assert(payload@ =~= t.payload@.subrange(0, j + 1));
            }
            j += 1;
        }
        proof {
            assert(payload@ =~= t.payload@);
        }
        let copy = Transaction {
            version: t.version,
            lock_time: t.lock_time,
            subnetwork_id: t.subnetwork_id,
            gas: t.gas,
            payload,
        };
        r.push(copy);
        proof {
            assert(tx_eq(copy, txs@[i as int]));
        }
        i += 1;
    }
    r
}

} // verus!
