use blockdag::hash::BlockHash;
use blockdag::ordering::SortableBlock;
use blockdag::ordering::merge_ascending;
use blockdag::ordering::reverse_blocks;

fn sb(w: u64, work: u128) -> SortableBlock {
    SortableBlock::new(BlockHash::from_u64(w), work)
}

#[test]
fn test_merge_ascending_with_tie() {
    // Blues at work 2, 7, 11 merge with reds at work 4, 9, 11; the tie at 11
    // breaks by hash, the smaller hash first.
    let blues = vec![sb(2, 7), sb(3, 11)];
    let reds = vec![sb(4, 4), sb(5, 9), sb(6, 11)];
    let merged = merge_ascending(&blues, &reds);
    assert_eq!(merged, vec![sb(4, 4), sb(2, 7), sb(5, 9), sb(3, 11), sb(6, 11)]);
    // The descending view is the exact reverse of the ascending one.
    let reversed = reverse_blocks(&merged);
    assert_eq!(reversed, vec![sb(6, 11), sb(3, 11), sb(5, 9), sb(2, 7), sb(4, 4)]);
    let mut expect = merged.clone();
    expect.reverse();
    assert_eq!(reversed, expect);
}

#[test]
fn test_sortable_order() {
    assert!(sb(1, 5).lt(&sb(2, 6)));
    assert!(!sb(2, 6).lt(&sb(1, 5)));
    assert!(sb(1, 5).lt(&sb(2, 5)));
    assert!(!sb(2, 5).lt(&sb(1, 5)));
    assert!(!sb(1, 5).lt(&sb(1, 5)));
}
