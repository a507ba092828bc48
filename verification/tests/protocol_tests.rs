use blockdag::ghostdag::GhostdagData;
use blockdag::ghostdag_store::GhostdagStore;
use blockdag::ghostdag_store::MemoryGhostdagStore;
use blockdag::hash::BlockHash;
use blockdag::protocol::check_blue_candidate;
use blockdag::protocol::color_candidate;
use blockdag::protocol::find_selected_parent;
use blockdag::protocol::finalize_from_store;
use blockdag::vecmap::HashKeyMap;

fn h(w: u64) -> BlockHash {
    BlockHash::from_u64(w)
}

fn data_with_work(w: u128) -> GhostdagData {
    GhostdagData::new(0, w, h(0), Vec::new(), Vec::new(), HashKeyMap::new())
}

#[test]
fn test_selected_parent_tie_break() {
    // Two parents with identical blue work: the lexicographically smaller
    // hash wins.
    let mut store = MemoryGhostdagStore::new();
    let p1 = h(1);
    let p2 = h(2);
    store.insert(p1, data_with_work(500)).unwrap();
    store.insert(p2, data_with_work(500)).unwrap();
    assert_eq!(find_selected_parent(&vec![p1, p2], &store), p1);
    assert_eq!(find_selected_parent(&vec![p2, p1], &store), p1);
    // More blue work beats a smaller hash.
    let p3 = h(3);
    store.insert(p3, data_with_work(501)).unwrap();
    assert_eq!(find_selected_parent(&vec![p1, p2, p3], &store), p3);
}

#[test]
fn test_k_cluster_limit() {
    // With K = 3, a candidate whose admission would push an existing blue's
    // anticone to four is colored red.
    let k = 3u8;
    let mut data = GhostdagData::new_with_selected_parent(h(1), k);
    let mut anticone: HashKeyMap<u8> = HashKeyMap::new();
    anticone.upsert(h(2), 3);
    assert!(!check_blue_candidate(&anticone, k));
    let blue = color_candidate(&mut data, h(5), &anticone, k);
    assert!(!blue);
    assert_eq!(data.mergeset_reds, vec![h(5)]);
    assert_eq!(data.mergeset_blues, vec![h(1)]);

    // A candidate whose anticone fits stays blue and bumps the counters.
    let mut small: HashKeyMap<u8> = HashKeyMap::new();
    small.upsert(h(1), 0);
    assert!(check_blue_candidate(&small, k));
    let blue = color_candidate(&mut data, h(6), &small, k);
    assert!(blue);
    assert_eq!(data.mergeset_blues, vec![h(1), h(6)]);
    // The candidate entered with its own anticone size, and the affected blue
    // counts one more.
    assert_eq!(*data.blues_anticone_sizes.get(&h(6)).unwrap(), 1);
    assert_eq!(*data.blues_anticone_sizes.get(&h(1)).unwrap(), 1);

    // A candidate with too many blues in its own anticone is red as well.
    let mut wide: HashKeyMap<u8> = HashKeyMap::new();
    wide.upsert(h(11), 0);
    wide.upsert(h(12), 0);
    wide.upsert(h(13), 0);
    wide.upsert(h(14), 0);
    assert!(!check_blue_candidate(&wide, k));
}

#[test]
fn test_finalize_score_and_work() {
    // blue_score = selected parent's blue score + the mergeset blues count,
    // blue_work = selected parent's blue work + the blues' own work.
    let mut store = MemoryGhostdagStore::new();
    let sp = h(1);
    let mut sp_data = data_with_work(700);
    sp_data.finalize_score_and_work(5, 700);
    store.insert(sp, sp_data).unwrap();

    let mut data = GhostdagData::new_with_selected_parent(sp, 5);
    data.add_blue(h(2), 0, &HashKeyMap::new());
    data.add_blue(h(3), 0, &HashKeyMap::new());
    data.add_red(h(4));
    finalize_from_store(&mut data, &store, &vec![100, 40, 60]);
    assert_eq!(data.blue_score, 5 + 3);
    assert_eq!(data.blue_work, 700 + 200);
}
