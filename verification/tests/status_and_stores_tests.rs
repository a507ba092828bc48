use blockdag::depth::DepthStore;
use blockdag::errors::StoreError;
use blockdag::hash::BlockHash;
use blockdag::reachability::ReachabilityStore;
use blockdag::status::BlockStatus;
use blockdag::statuses::StatusesStore;
use blockdag::tips::TipsStore;

fn h(w: u64) -> BlockHash {
    BlockHash::from_u64(w)
}

#[test]
fn test_status_predicates() {
    assert!(!BlockStatus::StatusInvalid.has_block_body());
    assert!(!BlockStatus::StatusHeaderOnly.has_block_body());
    assert!(BlockStatus::StatusUTXOValid.has_block_body());
    assert!(BlockStatus::StatusUTXOPendingVerification.has_block_body());
    assert!(BlockStatus::StatusDisqualifiedFromChain.has_block_body());

    assert!(BlockStatus::StatusUTXOValid.is_utxo_valid_or_pending());
    assert!(BlockStatus::StatusUTXOPendingVerification.is_utxo_valid_or_pending());
    assert!(!BlockStatus::StatusDisqualifiedFromChain.is_utxo_valid_or_pending());
    assert!(!BlockStatus::StatusHeaderOnly.is_utxo_valid_or_pending());
    assert!(!BlockStatus::StatusInvalid.is_utxo_valid_or_pending());
}

#[test]
fn test_status_transitions_table() {
    let mut s = StatusesStore::new();
    let x = h(1);
    // A key is created only as header-only.
    assert!(s.set(x, BlockStatus::StatusUTXOValid).is_err());
    assert!(s.set(x, BlockStatus::StatusHeaderOnly).is_ok());
    // Header-only may not jump straight to UTXO-valid.
    assert!(s.set(x, BlockStatus::StatusUTXOValid).is_err());
    assert!(s.set(x, BlockStatus::StatusUTXOPendingVerification).is_ok());
    assert!(s.set(x, BlockStatus::StatusHeaderOnly).is_err());
    assert!(s.set(x, BlockStatus::StatusUTXOValid).is_ok());
    // Statuses are monotone: no way back.
    assert!(s.set(x, BlockStatus::StatusUTXOPendingVerification).is_err());
    // Any state may fall to invalid.
    assert!(s.set(x, BlockStatus::StatusInvalid).is_ok());
    assert_eq!(s.get(x).unwrap(), BlockStatus::StatusInvalid);

    let y = h(2);
    assert!(s.set(y, BlockStatus::StatusHeaderOnly).is_ok());
    assert!(s.set(y, BlockStatus::StatusUTXOPendingVerification).is_ok());
    assert!(s.set(y, BlockStatus::StatusDisqualifiedFromChain).is_ok());
    assert!(s.set(y, BlockStatus::StatusUTXOValid).is_err());
    assert!(s.has(y));
    assert!(!s.has(h(3)));
}

#[test]
fn test_depth_store() {
    let mut d = DepthStore::new();
    assert!(d.insert(h(1), h(2), h(3)).is_ok());
    assert_eq!(d.merge_depth_root(h(1)).unwrap(), h(2));
    assert_eq!(d.finality_point(h(1)).unwrap(), h(3));
    // Writes are append-only.
    assert_eq!(d.insert(h(1), h(4), h(5)), Err(StoreError::KeyAlreadyExists(h(1))));
    assert_eq!(d.merge_depth_root(h(9)), Err(StoreError::KeyNotFound(h(9))));
}

#[test]
fn test_tips_store() {
    let mut t = TipsStore::new();
    t.init(vec![h(1), h(2)]);
    assert!(t.has(h(1)));
    assert!(t.has(h(2)));
    t.add_tip(h(3), &vec![h(1)]);
    assert!(t.has(h(3)));
    assert!(!t.has(h(1)));
    assert!(t.has(h(2)));
    let mut tips = t.get_tips();
    tips.sort();
    assert_eq!(tips, vec![h(2), h(3)]);
}

#[test]
fn test_interval_ancestry() {
    let mut r = ReachabilityStore::new();
    r.insert(h(1), 0, 100).unwrap();
    r.insert(h(2), 10, 50).unwrap();
    r.insert(h(3), 20, 30).unwrap();
    r.insert(h(4), 60, 80).unwrap();
    assert!(r.is_chain_ancestor_of(h(1), h(2)).unwrap());
    assert!(r.is_chain_ancestor_of(h(2), h(3)).unwrap());
    assert!(r.is_chain_ancestor_of(h(1), h(4)).unwrap());
    assert!(!r.is_chain_ancestor_of(h(2), h(4)).unwrap());
    assert!(!r.is_chain_ancestor_of(h(3), h(2)).unwrap());
    assert!(r.is_chain_ancestor_of(h(5), h(1)).is_err());
    // Labels are append-only.
    assert!(r.insert(h(1), 0, 10).is_err());
}

#[test]
fn test_mergeset_excludes_selected_parent_past() {
    // The mergeset keeps exactly the candidates outside the selected parent's
    // past, the selected parent itself excluded.
    let mut r = ReachabilityStore::new();
    r.insert(h(1), 0, 100).unwrap(); // genesis
    r.insert(h(2), 10, 50).unwrap(); // selected parent's ancestor
    r.insert(h(3), 20, 30).unwrap(); // selected parent
    r.insert(h(4), 60, 80).unwrap(); // side branch
    r.insert(h(5), 65, 70).unwrap(); // side branch child
    let candidates = vec![h(1), h(2), h(3), h(4), h(5)];
    let mergeset = r.compute_mergeset(&candidates, h(3));
    assert_eq!(mergeset, vec![h(4), h(5)]);
}
