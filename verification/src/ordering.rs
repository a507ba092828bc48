//! Mergeset ordering: blocks sorted by ascending blue work with the block
//! hash as tie-breaker, and the verified merge of two such sorted sequences.
use vstd::prelude::*;
use crate::hash::BlockHash;
use crate::hash::lex_lt;

verus! {

/// A block paired with its blue work, ordered by `(blue_work, hash)`.
#[derive(Clone, Copy, Debug, PartialEq, Eq)]
pub struct SortableBlock {
    pub hash: BlockHash,
    pub blue_work: u128,
}

/// The consensus order on mergeset blocks: ascending blue work, ties broken
/// by the lexicographically smaller hash. Distinct blocks never compare equal.
pub open spec fn sortable_lt(a: SortableBlock, b: SortableBlock) -> bool {
    a.blue_work < b.blue_work || (a.blue_work == b.blue_work && lex_lt(a.hash@, b.hash@))
}

impl SortableBlock {
    /// Builds a sortable block.
    pub fn new(hash: BlockHash, blue_work: u128) -> (r: SortableBlock)
        ensures
            r == (SortableBlock { hash, blue_work }),
    {
        SortableBlock { hash, blue_work }
    }

    /// The strict consensus order.
    pub fn lt(&self, other: &SortableBlock) -> (r: bool)
        ensures
            r == sortable_lt(*self, *other),
    {
        self.blue_work < other.blue_work || (self.blue_work == other.blue_work
            && self.hash.lt_hash(&other.hash))
    }
}

/// The merge of two sequences that are each ascending in the consensus order:
/// at each step the strictly smaller head goes first, and the head of `a`
/// goes first when neither is strictly smaller.
pub open spec fn merge_asc(a: Seq<SortableBlock>, b: Seq<SortableBlock>) -> Seq<SortableBlock>
    decreases a.len(), b.len(),
{
    if a.len() == 0 {
        b
    } else if b.len() == 0 {
        a
    } else if sortable_lt(b[0], a[0]) {
        seq![b[0]] + merge_asc(a, b.drop_first())
    } else {
        seq![a[0]] + merge_asc(a.drop_first(), b)
    }
}

/// Removing the entry at `i` removes one occurrence of it from the multiset.
proof fn lemma_remove_at_multiset(s: Seq<SortableBlock>, i: int)
    requires
        0 <= i < s.len(),
    ensures
        s.to_multiset() =~= s.remove(i).to_multiset().insert(s[i]),
{
    broadcast use vstd::seq_lib::group_to_multiset_ensures;

    let x = s[i];
    assert(s.contains(x));
    assert(s.to_multiset().count(x) > 0);
    assert(s.remove(i).to_multiset() =~= s.to_multiset().remove(x));
    assert forall|y: SortableBlock|
        s.to_multiset().count(y) == #[trigger] s.to_multiset().remove(x).insert(x).count(y) by {
        if y == x {
        } else {
        }
    }
    assert(s.to_multiset() =~= s.to_multiset().remove(x).insert(x));
}

/// The merge of two sequences holds exactly the entries of both, with their
/// multiplicities: the ordered views are the unordered mergeset as a multiset.
pub proof fn lemma_merge_asc_multiset(a: Seq<SortableBlock>, b: Seq<SortableBlock>)
    ensures
        merge_asc(a, b).to_multiset() =~= (a + b).to_multiset(),
    decreases a.len(), b.len(),
{
    if a.len() == 0 {
        assert(a + b =~= b);
    } else if b.len() == 0 {
        assert(a + b =~= a);
    } else if sortable_lt(b[0], a[0]) {
        lemma_merge_asc_multiset(a, b.drop_first());
        let m = merge_asc(a, b.drop_first());
        let r = seq![b[0]] + m;
        assert(r[0] == b[0]);
        assert(r.remove(0) =~= m);
        lemma_remove_at_multiset(r, 0);
        let ab = a + b;
        assert(ab[a.len() as int] == b[0]);
        assert(ab.remove(a.len() as int) =~= a + b.drop_first());
        lemma_remove_at_multiset(ab, a.len() as int);
    } else {
        lemma_merge_asc_multiset(a.drop_first(), b);
        let m = merge_asc(a.drop_first(), b);
        let r = seq![a[0]] + m;
        assert(r[0] == a[0]);
        assert(r.remove(0) =~= m);
        lemma_remove_at_multiset(r, 0);
        let ab = a + b;
        assert(ab[0] == a[0]);
        assert(ab.remove(0) =~= a.drop_first() + b);
        lemma_remove_at_multiset(ab, 0);
    }
}

/// Merges two sequences that are each ascending in the consensus order.
pub fn merge_ascending(a: &Vec<SortableBlock>, b: &Vec<SortableBlock>) -> (r: Vec<SortableBlock>)
    ensures
        r@ == merge_asc(a@, b@),
{
    let mut r: Vec<SortableBlock> = Vec::new();
    let mut i: usize = 0;
    let mut j: usize = 0;
    let n = a.len();
    let m = b.len();
    proof {
        assert(a@.subrange(0, n as int) =~= a@);
        assert(b@.subrange(0, m as int) =~= b@);
        assert(r@ + merge_asc(a@, b@) =~= merge_asc(a@, b@));
    }
    while i < n || j < m
        invariant
            n == a@.len(),
            m == b@.len(),
            i <= n,
            j <= m,
            merge_asc(a@, b@) == r@ + merge_asc(
                a@.subrange(i as int, n as int),
                b@.subrange(j as int, m as int),
            ),
        decreases n - i + m - j,
    {
        let ghost ra = a@.subrange(i as int, n as int);
        let ghost rb = b@.subrange(j as int, m as int);
        let ghost r0 = r@;
        let take_b = if i >= n {
            true
        } else if j >= m {
            false
        } else {
            b[j].lt(&a[i])
        };
        if take_b {
            proof {
                if ra.len() == 0 {
                    assert(merge_asc(ra, rb) == rb);
                    assert(rb == seq![rb[0]] + rb.drop_first());
                    assert(merge_asc(ra, rb.drop_first()) == rb.drop_first());
                } else {
                    assert(merge_asc(ra, rb) == seq![rb[0]] + merge_asc(ra, rb.drop_first()));
                }
            }
            r.push(b[j]);
            j += 1;
            proof {
                assert(b@.subrange(j as int, m as int) =~= rb.drop_first());
                assert(r@ =~= r0 + seq![rb[0]]);
                assert(r@ + merge_asc(ra, rb.drop_first()) =~= r0 + (seq![rb[0]] + merge_asc(
                    ra,
                    rb.drop_first(),
                )));
            }
        } else {
            proof {
                if rb.len() == 0 {
                    assert(merge_asc(ra, rb) == ra);
                    assert(ra == seq![ra[0]] + ra.drop_first());
                    assert(merge_asc(ra.drop_first(), rb) == ra.drop_first());
                } else {
                    assert(merge_asc(ra, rb) == seq![ra[0]] + merge_asc(ra.drop_first(), rb));
                }
            }
            r.push(a[i]);
            i += 1;
            proof {
                assert(a@.subrange(i as int, n as int) =~= ra.drop_first());
                assert(r@ =~= r0 + seq![ra[0]]);
                assert(r@ + merge_asc(ra.drop_first(), rb) =~= r0 + (seq![ra[0]] + merge_asc(
                    ra.drop_first(),
                    rb,
                )));
            }
        }
    }
    proof {
        assert(merge_asc(a@, b@) =~= r@);
    }
    r
}

/// The sequence in reverse order.
pub fn reverse_blocks(v: &Vec<SortableBlock>) -> (r: Vec<SortableBlock>)
    ensures
        r@ == v@.reverse(),
{
    let n = v.len();
    let mut r: Vec<SortableBlock> = Vec::new();
    let mut i: usize = 0;
    while i < n
        invariant
            n == v@.len(),
            i <= n,
            r@.len() == i,
            forall|k: int| 0 <= k < i ==> r@[k] == v@[n - 1 - k],
        decreases n - i,
    {
        r.push(v[n - 1 - i]);
        i += 1;
    }
    proof {
        assert(r@ =~= v@.reverse());
    }
    r
}

} // verus!
