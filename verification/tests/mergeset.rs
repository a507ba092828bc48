use std::collections::HashSet;

use blockdag::ghostdag::GhostdagData;
use blockdag::ghostdag_store::GhostdagStore;
use blockdag::ghostdag_store::GhostdagStoreReader;
use blockdag::ghostdag_store::MemoryGhostdagStore;
use blockdag::hash::BlockHash;
use blockdag::vecmap::HashKeyMap;

fn h(w: u64) -> BlockHash {
    BlockHash::from_u64(w)
}

fn factory(w: u64) -> GhostdagData {
    GhostdagData::new(0, w as u128, h(0), Vec::new(), Vec::new(), HashKeyMap::new())
}

#[test]
fn test_mergeset_iterators() {
    let mut store = MemoryGhostdagStore::new();

    // Blues
    store.insert(h(1), factory(2)).unwrap();
    store.insert(h(2), factory(7)).unwrap();
    store.insert(h(3), factory(11)).unwrap();

    // Reds
    store.insert(h(4), factory(4)).unwrap();
    store.insert(h(5), factory(9)).unwrap();
    store.insert(h(6), factory(11)).unwrap(); // Tie-breaking case

    let mut data = GhostdagData::new_with_selected_parent(h(1), 5);
    data.add_blue(h(2), 0, &HashKeyMap::new());
    data.add_blue(h(3), 0, &HashKeyMap::new());

    data.add_red(h(4));
    data.add_red(h(5));
    data.add_red(h(6));

    let mut expected: Vec<BlockHash> = vec![h(4), h(2), h(5), h(3), h(6)];
    assert_eq!(
        expected,
        data.ascending_mergeset_without_selected_parent(&store)
            .iter()
            .map(|b| b.hash)
            .collect::<Vec<BlockHash>>()
    );

    let mut consensus: Vec<BlockHash> = vec![h(1)];
    consensus.extend(expected.iter().cloned());
    assert_eq!(consensus, data.consensus_ordered_mergeset(&store));

    expected.reverse();
    assert_eq!(
        expected,
        data.descending_mergeset_without_selected_parent(&store)
            .iter()
            .map(|b| b.hash)
            .collect::<Vec<BlockHash>>()
    );

    // Use sets since the below functions have no order guarantee
    let expected = HashSet::from([h(4), h(2), h(5), h(3), h(6)]);
    assert_eq!(
        expected,
        data.unordered_mergeset_without_selected_parent().into_iter().collect::<HashSet<BlockHash>>()
    );

    let expected = HashSet::from([h(1), h(4), h(2), h(5), h(3), h(6)]);
    assert_eq!(expected, data.unordered_mergeset().into_iter().collect::<HashSet<BlockHash>>());
}

#[test]
fn test_store_rejects_duplicate_key() {
    let mut store = MemoryGhostdagStore::new();
    store.insert(h(7), factory(1)).unwrap();
    assert!(store.insert(h(7), factory(2)).is_err());
}

#[test]
fn test_store_reads_back_fields() {
    let mut store = MemoryGhostdagStore::new();
    let mut data = GhostdagData::new_with_selected_parent(h(9), 3);
    data.finalize_score_and_work(21, 1000);
    store.insert(h(10), data).unwrap();
    assert_eq!(store.get_blue_score(h(10)).unwrap(), 21);
    assert_eq!(store.get_blue_work(h(10)).unwrap(), 1000);
    assert_eq!(store.get_selected_parent(h(10)).unwrap(), h(9));
    assert_eq!(store.get_mergeset_blues(h(10)).unwrap(), vec![h(9)]);
    assert_eq!(store.get_mergeset_reds(h(10)).unwrap(), Vec::<BlockHash>::new());
    assert!(store.has(h(10)).unwrap());
    assert!(!store.has(h(11)).unwrap());
    let compact = store.get_compact_data(h(10)).unwrap();
    assert_eq!(compact.blue_score, 21);
    assert_eq!(compact.blue_work, 1000);
    assert_eq!(compact.selected_parent, h(9));
    let full = store.get_data(h(10)).unwrap();
    assert_eq!(full.mergeset_size(), 1);
    assert_eq!(full.to_compact(), compact);
    assert!(store.get_data(h(11)).is_err());
}
