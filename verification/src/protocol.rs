//! The GHOSTDAG engine's decisions: selected-parent choice, the k-cluster
//! test that colors a mergeset candidate blue or red, and the final blue
//! score and blue work of a new block.
use vstd::prelude::*;
use crate::ghostdag::GhostdagData;
use crate::ghostdag::KType;
use crate::ghostdag::bumped_anticone_sizes;
use crate::ghostdag::k_cluster_ok;
use crate::ghostdag::lemma_add_blue_preserves_k_cluster;
use crate::ghostdag::GhostdagView;
use crate::ghostdag_store::GhostdagStoreReader;
use crate::hash::BlockHash;
use crate::hash::lex_lt;
use crate::hash::lemma_lex_lt_transitive;
use crate::vecmap::HashKeyMap;

verus! {

/// The selected-parent order: `a` is at least as good as `b` when it has
/// strictly more blue work, or equal blue work and the smaller (or same)
/// hash.
pub open spec fn selected_parent_geq(
    a: BlockHash,
    b: BlockHash,
    gd: Map<BlockHash, GhostdagView>,
) -> bool {
    gd[a].blue_work > gd[b].blue_work || (gd[a].blue_work == gd[b].blue_work && (a == b || lex_lt(
        a@,
        b@,
    )))
}

/// Among the direct parents, picks the one with maximum blue work, ties
/// broken by the lexicographically smallest hash. The choice is
/// deterministic: it depends only on the parent set and the store.
pub fn find_selected_parent<S: GhostdagStoreReader>(parents: &Vec<BlockHash>, store: &S) -> (r:
    BlockHash)
    requires
        store.valid(),
        parents@.len() >= 1,
        forall|i: int|
            0 <= i < parents@.len() ==> store.gd().contains_key(#[trigger] parents@[i]),
    ensures
        parents@.contains(r),
        forall|i: int| 0 <= i < parents@.len() ==> selected_parent_geq(r, #[trigger] parents@[i], store.gd()),
{
    let n = parents.len();
    let mut best: BlockHash = parents[0];
    let mut best_work: u128 = match store.get_blue_work(best) {
        Ok(w) => w,
        Err(_) => {
            proof {
                assert(false);
            }
            0
        },
    };
    let mut i: usize = 1;
    while i < n
        invariant
            n == parents@.len(),
            1 <= i <= n,
            store.valid(),
            forall|j: int|
                0 <= j < parents@.len() ==> store.gd().contains_key(#[trigger] parents@[j]),
            parents@.contains(best),
            store.gd().contains_key(best),
            best_work == store.gd()[best].blue_work,
            forall|j: int| 0 <= j < i ==> selected_parent_geq(best, #[trigger] parents@[j], store.gd()),
        decreases n - i,
    {
        let p = parents[i];
        let w = match store.get_blue_work(p) {
            Ok(w) => w,
            Err(_) => {
                proof {
                    assert(false);
                }
                0
            },
        };
        if w > best_work || (w == best_work && p.lt_hash(&best)) {
            proof {
                let gd = store.gd();
                let prev = best;
                assert forall|j: int|
                    0 <= j < i implies selected_parent_geq(p, #[trigger] parents@[j], gd) by {
                    let q = parents@[j];
                    if gd[p].blue_work > gd[q].blue_work {
                    } else {
                        assert(gd[p].blue_work == gd[prev].blue_work);
                        assert(gd[q].blue_work == gd[p].blue_work);
                        if prev == q {
                        } else if q == p {
                        } else {
                            assert(lex_lt(prev@, q@));
                            assert(lex_lt(p@, prev@));
                            lemma_lex_lt_transitive(p@, prev@, q@);
                        }
                    }
                }
            }
            best = p;
            best_work = w;
        }
        proof {
            assert(selected_parent_geq(best, parents@[i as int], store.gd()));
        }
        i += 1;
    }
    best
}

/// The k-cluster admission test: a candidate may join the blues only if its
/// own blue anticone holds at most `k` blocks and every blue in that anticone
/// still has a blue anticone of at most `k` after counting the candidate.
pub fn check_blue_candidate(candidate_anticone: &HashKeyMap<KType>, k: KType) -> (r: bool)
    requires
        candidate_anticone.wf(),
    ensures
        r == (candidate_anticone@.dom().len() <= k && (forall|h: BlockHash|
            candidate_anticone@.contains_key(h) ==> candidate_anticone@[h] + 1 <= k)),
{
    if candidate_anticone.num_keys() > k as usize {
        return false;
    }
    let entries = candidate_anticone.entries();
    let n = entries.len();
    let mut i: usize = 0;
    while i < n
        invariant
            n == entries@.len(),
            i <= n,
            forall|j: int|
                0 <= j < entries@.len() ==> candidate_anticone@.contains_key(
                    #[trigger] entries@[j].0,
                ) && candidate_anticone@[entries@[j].0] == entries@[j].1,
            forall|h: BlockHash| candidate_anticone@.contains_key(h) ==> exists|j: int|
                0 <= j < entries@.len() && entries@[j].0 == h,
            forall|j: int| 0 <= j < i ==> (#[trigger] entries@[j].1) < k,
        decreases n - i,
    {
        if entries[i].1 >= k {
            proof {
                assert(candidate_anticone@[entries@[i as int].0] + 1 > k);
            }
            return false;
        }
        i += 1;
    }
    proof {
        assert forall|h: BlockHash|
            candidate_anticone@.contains_key(h) implies candidate_anticone@[h] + 1 <= k by {
            let j = choose|j: int| 0 <= j < entries@.len() && entries@[j].0 == h;
            assert(entries@[j].1 < k);
        }
    }
    true
}

/// Colors a mergeset candidate: blue when the k-cluster test admits it (its
/// anticone bookkeeping is then folded into the data), red otherwise. The
/// k-cluster property of the data is preserved either way.
pub fn color_candidate(
    data: &mut GhostdagData,
    candidate: BlockHash,
    candidate_anticone: &HashKeyMap<KType>,
    k: KType,
) -> (blue: bool)
    requires
        old(data).wf(),
        candidate_anticone.wf(),
        k_cluster_ok(old(data).blues_anticone_sizes@, k),
    ensures
        final(data).wf(),
        k_cluster_ok(final(data).blues_anticone_sizes@, k),
        blue == (candidate_anticone@.dom().len() <= k && (forall|h: BlockHash|
            candidate_anticone@.contains_key(h) ==> candidate_anticone@[h] + 1 <= k)),
        final(data).blue_score == old(data).blue_score,
        final(data).blue_work == old(data).blue_work,
        final(data).selected_parent == old(data).selected_parent,
        blue ==> final(data).mergeset_blues@ == old(data).mergeset_blues@.push(candidate)
            && final(data).mergeset_reds == old(data).mergeset_reds
            && final(data).blues_anticone_sizes@ == bumped_anticone_sizes(
            old(data).blues_anticone_sizes@.insert(
                candidate,
                candidate_anticone@.dom().len() as KType,
            ),
            candidate_anticone@,
        ),
        !blue ==> final(data).mergeset_reds@ == old(data).mergeset_reds@.push(candidate)
            && final(data).mergeset_blues == old(data).mergeset_blues
            && final(data).blues_anticone_sizes == old(data).blues_anticone_sizes,
{
    if check_blue_candidate(candidate_anticone, k) {
        let candidate_blue_anticone_size = candidate_anticone.num_keys() as KType;
        data.add_blue(candidate, candidate_blue_anticone_size, candidate_anticone);
        proof {
            lemma_add_blue_preserves_k_cluster(
                old(data).blues_anticone_sizes@,
                candidate,
                candidate_blue_anticone_size,
                candidate_anticone@,
                k,
            );
        }
        true
    } else {
        data.add_red(candidate);
        false
    }
}

/// The sum of a sequence of work values.
pub open spec fn sum_of(s: Seq<u128>) -> int
    decreases s.len(),
{
    if s.len() == 0 {
        0
    } else {
        sum_of(s.drop_last()) + s.last()
    }
}

/// Sets the block's final cumulative values from its selected parent's data:
/// the blue score counts the selected parent's blue ancestors plus every
/// mergeset blue, and the blue work adds the mergeset blues' own work.
pub fn finalize_from_store<S: GhostdagStoreReader>(
    data: &mut GhostdagData,
    store: &S,
    blues_works: &Vec<u128>,
)
    requires
        old(data).wf(),
        store.valid(),
        store.gd().contains_key(old(data).selected_parent),
        store.gd()[old(data).selected_parent].blue_score + old(data).mergeset_blues@.len()
            <= u64::MAX,
        store.gd()[old(data).selected_parent].blue_work + sum_of(blues_works@) <= u128::MAX,
    ensures
        final(data).wf(),
        final(data).blue_score == store.gd()[old(data).selected_parent].blue_score
            + old(data).mergeset_blues@.len(),
        final(data).blue_work == store.gd()[old(data).selected_parent].blue_work
            + sum_of(blues_works@),
        final(data).selected_parent == old(data).selected_parent,
        final(data).mergeset_blues == old(data).mergeset_blues,
        final(data).mergeset_reds == old(data).mergeset_reds,
        final(data).blues_anticone_sizes == old(data).blues_anticone_sizes,
{
    let sp_blue_score = match store.get_blue_score(data.selected_parent) {
        Ok(s) => s,
        Err(_) => {
            proof {
                assert(false);
            }
            0
        },
    };
    let sp_blue_work = match store.get_blue_work(data.selected_parent) {
        Ok(w) => w,
        Err(_) => {
            proof {
                assert(false);
            }
            0
        },
    };
    proof {
        lemma_sum_nonneg(blues_works@);
    }
    let added_work = sum_works(blues_works);
    let blue_score = sp_blue_score + data.mergeset_blues.len() as u64;
    let blue_work = sp_blue_work + added_work;
    data.finalize_score_and_work(blue_score, blue_work);
}

/// The sum of work values is never negative.
proof fn lemma_sum_nonneg(s: Seq<u128>)
    ensures
        sum_of(s) >= 0,
    decreases s.len(),
{
    if s.len() > 0 {
        lemma_sum_nonneg(s.drop_last());
    }
}

/// A prefix sums to no more than the whole sequence.
proof fn lemma_sum_prefix(s: Seq<u128>, j: int)
    requires
        0 <= j <= s.len(),
    ensures
        sum_of(s.subrange(0, j)) <= sum_of(s),
    decreases s.len() - j,
{
    if j == s.len() {
        assert(s.subrange(0, j) =~= s);
    } else {
        lemma_sum_prefix(s, j + 1);
        assert(s.subrange(0, j + 1).drop_last() =~= s.subrange(0, j));
        assert(s.subrange(0, j + 1).last() == s[j]);
    }
}

/// Sums work values; the caller bounds the total.
fn sum_works(works: &Vec<u128>) -> (r: u128)
    requires
        sum_of(works@) <= u128::MAX,
    ensures
        r == sum_of(works@),
{
    let n = works.len();
    let mut r: u128 = 0;
    let mut i: usize = 0;
    while i < n
        invariant
            n == works@.len(),
            i <= n,
            r == sum_of(works@.subrange(0, i as int)),
            sum_of(works@) <= u128::MAX,
        decreases n - i,
    {
        proof {
            assert(works@.subrange(0, i + 1).drop_last() =~= works@.subrange(0, i as int));
            assert(works@.subrange(0, i + 1).last() == works@[i as int]);
            lemma_sum_prefix(works@, i + 1);
        }
        r = r + works[i];
        i += 1;
    }
    proof {
        assert(works@.subrange(0, n as int) =~= works@);
    }
    r
}

} // verus!
