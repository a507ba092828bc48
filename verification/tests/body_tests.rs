use blockdag::body_processor::BlockBodyProcessor;
use blockdag::errors::RuleError;
use blockdag::hash::BlockHash;
use blockdag::header::Block;
use blockdag::header::Transaction;
use blockdag::header::block_from_precomputed_hash;
use blockdag::header::header_from_precomputed_hash;
use blockdag::status::BlockStatus;
use blockdag::subnets::subnetwork_id_coinbase;
use blockdag::subnets::subnetwork_id_native;

fn h(w: u64) -> BlockHash {
    BlockHash::from_u64(w)
}

fn zero() -> BlockHash {
    BlockHash::from_bytes([0u8; 32])
}

fn coinbase_tx() -> Transaction {
    Transaction::new(0, 0, subnetwork_id_coinbase(), 0, vec![])
}

fn block_with_body(hash: BlockHash, parents: Vec<BlockHash>, txs: Vec<Transaction>) -> Block {
    Block::new(header_from_precomputed_hash(hash, parents), txs)
}

#[test]
fn test_missing_parent_retry() {
    // A block arrives before its parent: the body stage surfaces the missing
    // parent and leaves the status unchanged; once the parent is processed,
    // the retry succeeds.
    let mut bp = BlockBodyProcessor::new(1000, h(1));
    let x = h(10);
    let p = h(9);
    bp.statuses_store.set(x, BlockStatus::StatusHeaderOnly).unwrap();
    let block_x = block_with_body(x, vec![p], vec![coinbase_tx()]);
    let res = bp.process_block_body(&block_x, zero(), 0);
    assert_eq!(res, Err(RuleError::MissingParents(vec![p])));
    assert_eq!(bp.statuses_store.get(x).unwrap(), BlockStatus::StatusHeaderOnly);

    bp.statuses_store.set(p, BlockStatus::StatusHeaderOnly).unwrap();
    let block_p = block_with_body(p, vec![], vec![coinbase_tx()]);
    assert_eq!(
        bp.process_block_body(&block_p, zero(), 0),
        Ok(BlockStatus::StatusUTXOPendingVerification)
    );
    assert_eq!(
        bp.process_block_body(&block_x, zero(), 0),
        Ok(BlockStatus::StatusUTXOPendingVerification)
    );
    // The child replaced its parent among the tips.
    assert!(bp.body_tips_store.has(x));
    assert!(!bp.body_tips_store.has(p));
}

#[test]
fn test_bad_merkle_root_retry() {
    // A body that disagrees with the header's merkle root is rejected without
    // invalidating the block; a fitting body is accepted later.
    let mut bp = BlockBodyProcessor::new(1000, h(1));
    let x = h(3);
    bp.statuses_store.set(x, BlockStatus::StatusHeaderOnly).unwrap();
    let block = block_with_body(x, vec![], vec![coinbase_tx()]);
    let mut wrong = [0u8; 32];
    wrong[0] = 0xee;
    let res = bp.process_block_body(&block, BlockHash::from_bytes(wrong), 0);
    assert_eq!(
        res,
        Err(RuleError::BadMerkleRoot(zero(), BlockHash::from_bytes(wrong)))
    );
    assert_eq!(bp.statuses_store.get(x).unwrap(), BlockStatus::StatusHeaderOnly);

    assert_eq!(
        bp.process_block_body(&block, zero(), 0),
        Ok(BlockStatus::StatusUTXOPendingVerification)
    );
}

#[test]
fn test_bad_coinbase_is_fatal() {
    let mut bp = BlockBodyProcessor::new(1000, h(1));
    let x = h(4);
    bp.statuses_store.set(x, BlockStatus::StatusHeaderOnly).unwrap();
    // No transactions at all: no coinbase.
    let block = block_with_body(x, vec![], vec![]);
    assert_eq!(bp.process_block_body(&block, zero(), 0), Err(RuleError::BadCoinbase));
    assert_eq!(bp.statuses_store.get(x).unwrap(), BlockStatus::StatusInvalid);
    // A second coinbase is also refused.
    let y = h(5);
    bp.statuses_store.set(y, BlockStatus::StatusHeaderOnly).unwrap();
    let block2 = block_with_body(y, vec![], vec![coinbase_tx(), coinbase_tx()]);
    assert_eq!(bp.process_block_body(&block2, zero(), 0), Err(RuleError::BadCoinbase));
}

#[test]
fn test_gas_rule() {
    // A built-in subnetwork transaction with non-zero gas is fatal.
    let mut bp = BlockBodyProcessor::new(1000, h(1));
    let x = h(6);
    bp.statuses_store.set(x, BlockStatus::StatusHeaderOnly).unwrap();
    let bad = Transaction::new(0, 0, subnetwork_id_coinbase(), 5, vec![]);
    let block = block_with_body(x, vec![], vec![bad]);
    assert_eq!(bp.process_block_body(&block, zero(), 0), Err(RuleError::BadTransaction));
    assert_eq!(bp.statuses_store.get(x).unwrap(), BlockStatus::StatusInvalid);
    // Gas is free outside built-in subnetworks.
    let y = h(7);
    bp.statuses_store.set(y, BlockStatus::StatusHeaderOnly).unwrap();
    let free = Transaction::new(0, 0, subnetwork_id_native(), 5, vec![]);
    let block2 = block_with_body(y, vec![], vec![coinbase_tx(), free]);
    assert_eq!(
        bp.process_block_body(&block2, zero(), 0),
        Ok(BlockStatus::StatusUTXOPendingVerification)
    );
}

#[test]
fn test_block_mass_limit() {
    let mut bp = BlockBodyProcessor::new(10, h(1));
    let x = h(8);
    bp.statuses_store.set(x, BlockStatus::StatusHeaderOnly).unwrap();
    let block = block_with_body(x, vec![], vec![coinbase_tx()]);
    assert_eq!(bp.process_block_body(&block, zero(), 11), Err(RuleError::BadBlockMass));
    assert_eq!(bp.statuses_store.get(x).unwrap(), BlockStatus::StatusInvalid);
    let y = h(9);
    bp.statuses_store.set(y, BlockStatus::StatusHeaderOnly).unwrap();
    let block2 = block_with_body(y, vec![], vec![coinbase_tx()]);
    assert_eq!(
        bp.process_block_body(&block2, zero(), 10),
        Ok(BlockStatus::StatusUTXOPendingVerification)
    );
}

#[test]
fn test_known_invalid_and_idempotence() {
    let mut bp = BlockBodyProcessor::new(1000, h(1));
    let x = h(12);
    bp.statuses_store.set(x, BlockStatus::StatusHeaderOnly).unwrap();
    let block = block_with_body(x, vec![], vec![coinbase_tx()]);
    assert_eq!(
        bp.process_block_body(&block, zero(), 0),
        Ok(BlockStatus::StatusUTXOPendingVerification)
    );
    // Submitting the same block again surfaces the current status.
    assert_eq!(
        bp.process_block_body(&block, zero(), 0),
        Ok(BlockStatus::StatusUTXOPendingVerification)
    );
    // A block marked invalid stays rejected.
    let y = h(13);
    bp.statuses_store.set(y, BlockStatus::StatusHeaderOnly).unwrap();
    bp.statuses_store.set(y, BlockStatus::StatusInvalid).unwrap();
    let block2 = block_with_body(y, vec![], vec![coinbase_tx()]);
    assert_eq!(bp.process_block_body(&block2, zero(), 0), Err(RuleError::KnownInvalid));
}

#[test]
fn test_commit_updates_tips() {
    // After a body-stage commit the block is a tip and none of its direct
    // parents is.
    let mut bp = BlockBodyProcessor::new(1000, h(1));
    for w in [20u64, 21, 22] {
        let x = h(w);
        bp.statuses_store.set(x, BlockStatus::StatusHeaderOnly).unwrap();
        let block = block_with_body(x, vec![], vec![coinbase_tx()]);
        bp.process_block_body(&block, zero(), 0).unwrap();
    }
    let child = h(23);
    bp.statuses_store.set(child, BlockStatus::StatusHeaderOnly).unwrap();
    let block = block_with_body(child, vec![h(20), h(21)], vec![coinbase_tx()]);
    bp.process_block_body(&block, zero(), 0).unwrap();
    assert!(bp.body_tips_store.has(child));
    assert!(!bp.body_tips_store.has(h(20)));
    assert!(!bp.body_tips_store.has(h(21)));
    assert!(bp.body_tips_store.has(h(22)));
    let mut tips = bp.body_tips_store.get_tips();
    tips.sort();
    assert_eq!(tips, vec![h(22), h(23)]);
}

#[test]
fn test_genesis_payload_bytes() {
    let g = h(1);
    let mut bp = BlockBodyProcessor::new(1000, g);
    bp.statuses_store.set(g, BlockStatus::StatusHeaderOnly).unwrap();
    bp.process_genesis_if_needed();
    assert_eq!(
        bp.statuses_store.get(g).unwrap(),
        BlockStatus::StatusUTXOPendingVerification
    );
    assert!(bp.body_tips_store.has(g));
    assert_eq!(bp.body_tips_store.get_tips(), vec![g]);
    let txs = bp.block_transactions_store.get(g).unwrap();
    assert_eq!(txs.len(), 1);
    let coinbase = &txs[0];
    assert_eq!(coinbase.subnetwork_id, subnetwork_id_coinbase());
    assert_eq!(coinbase.gas, 0);
    assert_eq!(
        coinbase.payload,
        vec![
            0x00, 0x00, 0x00, 0x00, 0x00, 0x00, 0x00, 0x00, // Blue score
            0x00, 0xE1, 0xF5, 0x05, 0x00, 0x00, 0x00, 0x00, // Subsidy
            0x00, 0x00, // Script version
            0x01, // Varint
            0x00, // OP-FALSE
            0x6b, 0x61, 0x73, 0x70, 0x61, 0x2d, 0x64, 0x65, 0x76, 0x6e, 0x65, 0x74,
        ]
    );
    // Running the genesis step again changes nothing.
    bp.process_genesis_if_needed();
    assert_eq!(bp.body_tips_store.get_tips(), vec![g]);
}

#[test]
fn test_precomputed_hash_helpers() {
    let parents = vec![h(1), h(2)];
    let header = header_from_precomputed_hash(h(3), parents.clone());
    assert_eq!(header.hash, h(3));
    assert_eq!(header.parents_by_level.len(), 1);
    assert_eq!(header.parents_by_level[0], parents);
    assert_eq!(header.blue_score, 0);
    assert_eq!(header.blue_work, 0);
    let block = block_from_precomputed_hash(h(3), parents.clone());
    assert_eq!(block.hash(), h(3));
    assert!(block.transactions.is_empty());
}
