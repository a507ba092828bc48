use blockdag::deps_manager::BlockTaskDependencyManager;
use blockdag::hash::BlockHash;
use blockdag::header::block_from_precomputed_hash;

fn h(w: u64) -> BlockHash {
    BlockHash::from_u64(w)
}

#[test]
fn test_duplicate_submission_single_task() {
    // Two submissions of one block share one task: the second registration
    // only appends its listener and must not spawn.
    let mut m = BlockTaskDependencyManager::new();
    let b = block_from_precomputed_hash(h(1), vec![]);
    assert!(m.register(b, vec![100]));
    let again = block_from_precomputed_hash(h(1), vec![]);
    assert!(!m.register(again, vec![200]));
    assert!(m.try_begin(h(1)));
    let (block, listeners, ready) = m.end(h(1));
    assert_eq!(block.header.hash, h(1));
    assert_eq!(listeners, vec![100, 200]);
    assert!(ready.is_empty());
    assert!(m.is_idle());
}

#[test]
fn test_try_begin_exclusive() {
    // At most one worker holds a hash between begin and end.
    let mut m = BlockTaskDependencyManager::new();
    let b = block_from_precomputed_hash(h(2), vec![]);
    assert!(m.register(b, vec![1]));
    assert!(m.try_begin(h(2)));
    assert!(!m.try_begin(h(2)));
    let (_, _, ready) = m.end(h(2));
    assert!(ready.is_empty());
    // The task is gone: beginning again fails.
    assert!(!m.try_begin(h(2)));
}

#[test]
fn test_dependency_release_order() {
    // A child runs only after its registered parents ended; ending the last
    // pending parent hands the child back as ready.
    let mut m = BlockTaskDependencyManager::new();
    let p1 = block_from_precomputed_hash(h(10), vec![]);
    let p2 = block_from_precomputed_hash(h(11), vec![]);
    let child = block_from_precomputed_hash(h(12), vec![h(10), h(11)]);
    assert!(m.register(p1, vec![1]));
    assert!(m.register(p2, vec![2]));
    // Both parents are pending, so the child is not ready to spawn.
    assert!(!m.register(child, vec![3]));
    assert!(!m.try_begin(h(12)));

    assert!(m.try_begin(h(10)));
    let (_, _, ready) = m.end(h(10));
    assert!(ready.is_empty());
    // One parent is still pending.
    assert!(!m.try_begin(h(12)));

    assert!(m.try_begin(h(11)));
    let (_, _, ready) = m.end(h(11));
    assert_eq!(ready, vec![h(12)]);

    assert!(m.try_begin(h(12)));
    let (block, listeners, ready) = m.end(h(12));
    assert_eq!(block.header.hash, h(12));
    assert_eq!(listeners, vec![3]);
    assert!(ready.is_empty());
    assert!(m.is_idle());
}

#[test]
fn test_register_with_absent_parents_is_ready() {
    // Parents that never registered at this stage do not block the task.
    let mut m = BlockTaskDependencyManager::new();
    let b = block_from_precomputed_hash(h(20), vec![h(18), h(19)]);
    assert!(m.register(b, vec![7]));
    assert!(m.try_begin(h(20)));
    let (_, listeners, _) = m.end(h(20));
    assert_eq!(listeners, vec![7]);
    assert!(m.is_idle());
}
