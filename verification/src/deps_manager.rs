//! The block task dependency manager: coordinates per-block work so that a
//! block's stage runs only after all its parents have completed that stage.
//! The callers hold one lock around every operation; spawning ready
//! dependents is done by the caller outside the lock.
use vstd::prelude::*;
use crate::hash::BlockHash;
use crate::header::Block;
use crate::vecmap::HashKeyMap;

verus! {

/// One registered block task. `pending_parents` holds the direct parents
/// that were registered before this block and have not completed yet; the
/// task may run only once it is empty. `dependents` holds the blocks waiting
/// for this one. `listeners` are the result listeners of every submission of
/// this block, as tickets the caller maps to its one-shot sinks.
pub struct BlockTask {
    pub block: Block,
    pub dependents: Vec<BlockHash>,
    pub pending_parents: Vec<BlockHash>,
    pub taken: bool,
    pub listeners: Vec<u64>,
}

/// The dependency manager's task table.
pub struct BlockTaskDependencyManager {
    tasks: HashKeyMap<BlockTask>,
}

impl View for BlockTaskDependencyManager {
    type V = Map<BlockHash, BlockTask>;

    closed spec fn view(&self) -> Map<BlockHash, BlockTask> {
        self.tasks@
    }
}

/// The dependency links are consistent: every pending parent of a task is a
/// registered task that lists it as a dependent, and every dependent of a
/// task is a registered task still waiting on it. Both lists are free of
/// duplicates, and every task is keyed by its block's hash.
pub open spec fn links_ok(m: Map<BlockHash, BlockTask>) -> bool {
    &&& forall|d: BlockHash| #[trigger] m.contains_key(d) ==> m[d].block.header.hash == d
    &&& forall|d: BlockHash| #[trigger] m.contains_key(d) ==> m[d].pending_parents@.no_duplicates()
    &&& forall|d: BlockHash| #[trigger] m.contains_key(d) ==> m[d].dependents@.no_duplicates()
    &&& forall|d: BlockHash, p: BlockHash|
        m.contains_key(d) && #[trigger] m[d].pending_parents@.contains(p) ==> m.contains_key(p)
            && m[p].dependents@.contains(d)
    &&& forall|p: BlockHash, d: BlockHash|
        m.contains_key(p) && #[trigger] m[p].dependents@.contains(d) ==> m.contains_key(d)
            && m[d].pending_parents@.contains(p)
    &&& forall|d: BlockHash| #[trigger] m.contains_key(d) ==> !m[d].pending_parents@.contains(d)
}

/// A task may begin: it is registered, nobody holds it, and no parent is
/// pending.
pub open spec fn spec_can_begin(m: Map<BlockHash, BlockTask>, h: BlockHash) -> bool {
    m.contains_key(h) && !m[h].taken && m[h].pending_parents@.len() == 0
}

/// The state after a worker takes the task.
pub open spec fn spec_after_begin(m: Map<BlockHash, BlockTask>, h: BlockHash) -> Map<
    BlockHash,
    BlockTask,
> {
    m.insert(
        h,
        BlockTask {
            block: m[h].block,
            dependents: m[h].dependents,
            pending_parents: m[h].pending_parents,
            taken: true,
            listeners: m[h].listeners,
        },
    )
}

/// At most one worker is ever inside the begin-to-end span of one hash: a
/// successful begin marks the task, and a second begin on the marked task
/// must fail until the task ends.
pub proof fn lemma_try_begin_mutual_exclusion(m: Map<BlockHash, BlockTask>, h: BlockHash)
    requires
        spec_can_begin(m, h),
    ensures
        !spec_can_begin(spec_after_begin(m, h), h),
{
}

impl BlockTaskDependencyManager {
    /// All dependency links are consistent.
    pub closed spec fn wf(&self) -> bool {
        &&& self.tasks.wf()
        &&& links_ok(self@)
    }

    /// An empty manager.
    pub fn new() -> (r: BlockTaskDependencyManager)
        ensures
            r.wf(),
            r@ == Map::<BlockHash, BlockTask>::empty(),
    {
        BlockTaskDependencyManager { tasks: HashKeyMap::new() }
    }

    /// Whether no task is registered; the callers' idle signal.
    pub fn is_idle(&self) -> (r: bool)
        requires
            self.wf(),
        ensures
            r <==> self@ == Map::<BlockHash, BlockTask>::empty(),
    {
        self.tasks.is_empty()
    }

    /// The block of a registered task.
    pub fn block_of(&self, hash: BlockHash) -> (r: Option<&Block>)
        requires
            self.wf(),
        ensures
            match r {
                Some(b) => self@.contains_key(hash) && *b == self@[hash].block,
                None => !self@.contains_key(hash),
            },
    {
        match self.tasks.get(&hash) {
            Some(t) => Some(&t.block),
            None => None,
        }
    }

    /// Registers a block task. If the block is already registered, its
    /// listeners are appended to the existing task and the caller must not
    /// spawn. Otherwise the task is inserted, waiting on each direct parent
    /// that is still registered; the call returns true only if no parent is
    /// pending, that is, only if the task is ready to run.
    pub fn register(&mut self, block: Block, listeners: Vec<u64>) -> (r: bool)
        requires
            old(self).wf(),
            block.header.parents_by_level@.len() >= 1,
            block.header.spec_direct_parents().no_duplicates(),
        ensures
            final(self).wf(),
            old(self)@.contains_key(block.header.hash) ==> !r && final(self)@.dom() == old(self)@.dom() && final(self)@[block.header.hash].listeners@ == old(self)@[block.header.hash].listeners@ + listeners@,
            !old(self)@.contains_key(block.header.hash) ==> final(self)@.contains_key(
                block.header.hash,
            ) && (r <==> final(self)@[block.header.hash].pending_parents@.len() == 0) && !final(self)@[block.header.hash].taken && final(self)@[block.header.hash].listeners@ == listeners@
                && (forall|p: BlockHash|
                final(self)@[block.header.hash].pending_parents@.contains(p)
                    <==> (block.header.spec_direct_parents().contains(p) && old(self)@.contains_key(p))),
    {
        let hash = block.hash();
        if self.tasks.has(&hash) {
            let mut task = match self.tasks.remove(&hash) {
                Some(t) => t,
                None => {
                    proof {
                        assert(false);
                    }
                    return false;
                },
            };
            let mut extra = listeners;
            task.listeners.append(&mut extra);
            let ghost mprev = old(self)@.remove(hash);
            self.tasks.push_absent(hash, task);
            proof {
                assert(final(self)@.dom() =~= old(self)@.dom());
                assert(links_ok(final(self)@)) by {
                    assert forall|d: BlockHash, p: BlockHash|
                        final(self)@.contains_key(d) && #[trigger] final(self)@[d].pending_parents@.contains(p) implies final(self)@.contains_key(p)
                        && final(self)@[p].dependents@.contains(d) by {
                        assert(old(self)@.contains_key(d));
                        assert(old(self)@[d].pending_parents@ == final(self)@[d].pending_parents@);
                    }
                    assert forall|p: BlockHash, d: BlockHash|
                        final(self)@.contains_key(p) && #[trigger] final(self)@[p].dependents@.contains(d) implies final(self)@.contains_key(d) && final(self)@[d].pending_parents@.contains(p) by {
                        assert(old(self)@.contains_key(p));
                        assert(old(self)@[p].dependents@ == final(self)@[p].dependents@);
                    }
                }
            }
            return false;
        }
        // First pass: find the direct parents that are still registered.
        let parents = block.header.direct_parents();
        let np = parents.len();
        let mut pending: Vec<BlockHash> = Vec::new();
        let mut i: usize = 0;
        while i < np
            invariant
                np == parents@.len(),
                i <= np,
                self.wf(),
                *self == *old(self),
                parents@.no_duplicates(),
                forall|t: int, u: int| 0 <= t < u < pending@.len() ==> pending@[t] != pending@[u],
                forall|p: BlockHash| #[trigger] pending@.contains(p) ==> parents@.contains(p)
                    && self@.contains_key(p),
                forall|j: int|
                    0 <= j < i && self@.contains_key(#[trigger] parents@[j]) ==> pending@.contains(
                        parents@[j],
                    ),
                forall|t: int|
                    0 <= t < pending@.len() ==> exists|j: int|
                        0 <= j < i && parents@[j] == #[trigger] pending@[t],
            decreases np - i,
        {
            let p = parents[i];
            if self.tasks.has(&p) {
                let ghost pend0 = pending@;
                pending.push(p);
                proof {
                    assert forall|t: int, u: int|
                        0 <= t < u < pending@.len() implies pending@[t] != pending@[u] by {
                        if u == pending@.len() - 1 {
                            assert(pending@[u] == parents@[i as int]);
                            let j = choose|j: int| 0 <= j < i && parents@[j] == pend0[t];
                            assert(parents@[j] != parents@[i as int]);
                        }
                    }
                    assert forall|p2: BlockHash| #[trigger] pending@.contains(
                        p2,
                    ) implies parents@.contains(p2) && self@.contains_key(p2) by {
                        let t = choose|t: int| 0 <= t < pending@.len() && pending@[t] == p2;
                        if t == pending@.len() - 1 {
                            assert(parents@[i as int] == p2);
                        } else {
                            assert(pend0.contains(p2));
                        }
                    }
                    assert(pending@[pending@.len() - 1] == parents@[i as int]);
                    assert(pending@.contains(parents@[i as int]));
                    assert forall|j2: int|
                        0 <= j2 < i + 1 && self@.contains_key(
                            #[trigger] parents@[j2],
                        ) implies pending@.contains(parents@[j2]) by {
                        if j2 < i {
                            assert(pend0.contains(parents@[j2]));
                            let w = choose|w: int| 0 <= w < pend0.len() && pend0[w] == parents@[j2];
                            assert(pending@[w] == parents@[j2]);
                        }
                    }
                    assert forall|t: int|
                        0 <= t < pending@.len() implies exists|j2: int|
                            0 <= j2 < i + 1 && parents@[j2] == #[trigger] pending@[t] by {
                        if t < pending@.len() - 1 {
                            let j2 = choose|j2: int|
                                0 <= j2 < i && parents@[j2] == #[trigger] pend0[t];
                            assert(parents@[j2] == pending@[t]);
                        } else {
                            assert(parents@[i as int] == pending@[t]);
                        }
                    }
                }
            }
            i += 1;
        }
        let ready = pending.len() == 0;
        // Insert the new task, then link it into each pending parent.
        let task = BlockTask {
            block,
            dependents: Vec::new(),
            pending_parents: pending,
            taken: false,
            listeners,
        };
        let ghost m0 = old(self)@;
        let ghost pend = task.pending_parents@;
        let ghost lis = task.listeners@;
        self.tasks.push_absent(hash, task);
        proof {
            assert(self@.contains_key(hash));
            assert(self@.dom() =~= m0.dom().insert(hash));
            assert forall|t: int|
                0 <= t < pend.len() implies self@[#[trigger] pend[t]].dependents@ == m0[
                pend[t]
            ].dependents@ by {
                assert(pend.contains(pend[t]));
                assert(m0.contains_key(pend[t]));
                assert(pend[t] != hash);
            }
        }
        let np2 = self.tasks_pending_len(hash);
        let mut j: usize = 0;
        while j < np2
            invariant
                self.tasks.wf(),
                !m0.contains_key(hash),
                self@.contains_key(hash),
                self@[hash].pending_parents@ == pend,
                self@[hash].block.header.hash == hash,
                self@[hash].dependents@.len() == 0,
                self@[hash].taken == false,
                self@[hash].listeners@ == lis,
                np2 == pend.len(),
                j <= np2,
                pend.no_duplicates(),
                forall|p: BlockHash| #[trigger] pend.contains(p) ==> m0.contains_key(p),
                self@.dom() == m0.dom().insert(hash),
                links_ok(m0),
                forall|x: BlockHash| #[trigger] m0.contains_key(x) ==> self@.contains_key(x)
                    && self@[x].block == m0[x].block && self@[x].pending_parents@
                    == m0[x].pending_parents@ && self@[x].taken == m0[x].taken
                    && self@[x].listeners@ == m0[x].listeners@,
                forall|x: BlockHash|
                    #[trigger] m0.contains_key(x) && !pend.contains(x) ==> self@[x].dependents@
                        == m0[x].dependents@,
                forall|t: int|
                    0 <= t < j ==> self@[pend[t]].dependents@ == m0[pend[t]].dependents@.push(
                        hash,
                    ),
                forall|t: int|
                    j <= t < np2 ==> self@[#[trigger] pend[t]].dependents@
                        == m0[pend[t]].dependents@,
            decreases np2 - j,
        {
            let p = self.tasks_pending_at(hash, j);
            let mut ptask = match self.tasks.remove(&p) {
                Some(t) => t,
                None => {
                    proof {
                        assert(pend[j as int] == p);
                        assert(pend.contains(p));
                        assert(false);
                    }
                    return false;
                },
            };
            ptask.dependents.push(hash);
            proof {
                assert(pend[j as int] == p);
                assert(pend.contains(p));
                assert(p != hash);
            }
            self.tasks.push_absent(p, ptask);
            proof {
                assert(self@.dom() =~= m0.dom().insert(hash));
                assert forall|t: int|
                    0 <= t < j + 1 implies self@[pend[t]].dependents@ == m0[pend[t]].dependents@.push(
                    hash,
                ) by {
                    if t < j {
                        assert(pend[t] != p);
                    }
                }
                assert forall|t: int|
                    j + 1 <= t < np2 implies self@[#[trigger] pend[t]].dependents@ == m0[
                    pend[t]
                ].dependents@ by {
                    assert(pend[t] != p);
                }
            }
            j += 1;
        }
        proof {
            let m = self@;
            assert(links_ok(m)) by {
                assert forall|d: BlockHash| #[trigger] m.contains_key(d) implies m[
                    d
                ].dependents@.no_duplicates() by {
                    if m0.contains_key(d) {
                        if pend.contains(d) {
                            assert(m[d].dependents@ == m0[d].dependents@.push(hash));
                            let dd = m0[d].dependents@;
                            assert forall|t: int, u: int|
                                0 <= t < u < dd.push(hash).len() implies dd.push(hash)[t] != dd.push(
                                hash,
                            )[u] by {
                                if u == dd.len() {
                                    // hash is new: every old dependent is registered in m0
                                    assert(dd.contains(dd[t]));
                                    assert(m0.contains_key(dd[t]));
                                } else {
                                }
                            }
                        } else {
                            assert(m[d].dependents@ == m0[d].dependents@);
                        }
                    } else {
                        assert(d == hash);
                    }
                }
                assert forall|d: BlockHash, p: BlockHash|
                    m.contains_key(d) && #[trigger] m[d].pending_parents@.contains(
                        p,
                    ) implies m.contains_key(p) && m[p].dependents@.contains(d) by {
                    if d == hash {
                        assert(pend.contains(p));
                        let t = choose|t: int| 0 <= t < pend.len() && pend[t] == p;
                        assert(m[p].dependents@ == m0[p].dependents@.push(hash));
                        assert(m[p].dependents@[m[p].dependents@.len() - 1] == hash);
                    } else {
                        assert(m0.contains_key(d));
                        assert(m0[d].pending_parents@.contains(p));
                        assert(m0[p].dependents@.contains(d));
                        if pend.contains(p) {
                            let w = choose|w: int|
                                0 <= w < m0[p].dependents@.len() && m0[p].dependents@[w] == d;
                            assert(m[p].dependents@[w] == d);
                        }
                    }
                }
                assert forall|p: BlockHash, d: BlockHash|
                    m.contains_key(p) && #[trigger] m[p].dependents@.contains(
                        d,
                    ) implies m.contains_key(d) && m[d].pending_parents@.contains(p) by {
                    if p == hash {
                        assert(m[hash].dependents@.len() == 0);
                    } else {
                        assert(m0.contains_key(p));
                        if pend.contains(p) {
                            assert(m[p].dependents@ == m0[p].dependents@.push(hash));
                            let w = choose|w: int|
                                0 <= w < m[p].dependents@.len() && m[p].dependents@[w] == d;
                            if w == m[p].dependents@.len() - 1 {
                                assert(d == hash);
                                assert(m[hash].pending_parents@.contains(p));
                            } else {
                                assert(m0[p].dependents@.contains(d));
                            }
                        } else {
                            assert(m0[p].dependents@.contains(d));
                        }
                    }
                }
            }
        }
        ready
    }

    /// The number of pending parents of a registered task.
    fn tasks_pending_len(&self, hash: BlockHash) -> (r: usize)
        requires
            self.tasks.wf(),
            self@.contains_key(hash),
        ensures
            r == self@[hash].pending_parents@.len(),
    {
        match self.tasks.get(&hash) {
            Some(t) => t.pending_parents.len(),
            None => {
                proof {
                    assert(false);
                }
                0
            },
        }
    }

    /// One pending parent of a registered task.
    fn tasks_pending_at(&self, hash: BlockHash, j: usize) -> (r: BlockHash)
        requires
            self.tasks.wf(),
            self@.contains_key(hash),
            j < self@[hash].pending_parents@.len(),
        ensures
            r == self@[hash].pending_parents@[j as int],
    {
        match self.tasks.get(&hash) {
            Some(t) => t.pending_parents[j],
            None => {
                proof {
                    assert(false);
                }
                BlockHash::from_bytes([0u8; 32])
            },
        }
    }

    /// Atomically takes the task for processing: succeeds exactly when the
    /// task is registered, not yet taken, and waiting on no parent. At most
    /// one worker can ever hold a given hash between `try_begin` and `end`.
    pub fn try_begin(&mut self, hash: BlockHash) -> (r: bool)
        requires
            old(self).wf(),
        ensures
            final(self).wf(),
            r == spec_can_begin(old(self)@, hash),
            r ==> final(self)@ == spec_after_begin(old(self)@, hash),
            !r ==> final(self)@ == old(self)@ && *final(self) == *old(self),
    {
        let can = match self.tasks.get(&hash) {
            Some(t) => !t.taken && t.pending_parents.len() == 0,
            None => false,
        };
        if !can {
            return false;
        }
        let task = match self.tasks.remove(&hash) {
            Some(t) => t,
            None => {
                proof {
                    assert(false);
                }
                return false;
            },
        };
        let taken_task = BlockTask {
            block: task.block,
            dependents: task.dependents,
            pending_parents: task.pending_parents,
            taken: true,
            listeners: task.listeners,
        };
        self.tasks.push_absent(hash, taken_task);
        proof {
            assert(final(self)@ =~= spec_after_begin(old(self)@, hash));
            assert(links_ok(final(self)@)) by {
                assert forall|d: BlockHash, p: BlockHash|
                    final(self)@.contains_key(d) && #[trigger] final(self)@[d].pending_parents@.contains(p) implies final(self)@.contains_key(p)
                    && final(self)@[p].dependents@.contains(d) by {
                    assert(old(self)@[d].pending_parents@.contains(p));
                }
                assert forall|p: BlockHash, d: BlockHash|
                    final(self)@.contains_key(p) && #[trigger] final(self)@[p].dependents@.contains(d) implies final(self)@.contains_key(d) && final(self)@[d].pending_parents@.contains(p) by {
                    assert(old(self)@[p].dependents@.contains(d));
                }
            }
        }
        true
    }

    /// Ends a task: removes it, releases each dependent from waiting on it,
    /// and returns the task's block and listeners together with exactly the
    /// dependents that thereby became ready to run. The caller invokes the
    /// result listeners and spawns the ready dependents outside the lock; if
    /// all ancestors of a block eventually end, every wait of that block is
    /// released here, one parent per call.
    pub fn end(&mut self, hash: BlockHash) -> (r: (Block, Vec<u64>, Vec<BlockHash>))
        requires
            old(self).wf(),
            old(self)@.contains_key(hash),
            old(self)@[hash].pending_parents@.len() == 0,
        ensures
            final(self).wf(),
            !final(self)@.contains_key(hash),
            r.0 == old(self)@[hash].block,
            r.1@ == old(self)@[hash].listeners@,
            final(self)@.dom() == old(self)@.dom().remove(hash),
            forall|x: BlockHash|
                #[trigger] final(self)@.contains_key(x) ==> final(self)@[x].block == old(self)@[x].block && final(self)@[x].taken == old(self)@[x].taken && final(self)@[x].listeners@ == old(self)@[x].listeners@ && final(self)@[x].dependents@ == old(self)@[x].dependents@,
            forall|x: BlockHash| #[trigger] final(self)@.contains_key(x) ==> (forall|p: BlockHash|
                final(self)@[x].pending_parents@.contains(p) <==> (old(self)@[x].pending_parents@.contains(p) && p != hash)),
            forall|x: BlockHash|
                #[trigger] r.2@.contains(x) <==> (old(self)@.contains_key(x) && x != hash && old(self)@[x].pending_parents@.contains(hash) && old(self)@[x].pending_parents@.len() == 1),
    {
        let task = match self.tasks.remove(&hash) {
            Some(t) => t,
            None => {
                proof {
                    assert(false);
                }
                vstd::pervasive::unreached()
            },
        };
        let ghost m0 = old(self)@;
        let deps = task.dependents;
        let nd = deps.len();
        let mut ready: Vec<BlockHash> = Vec::new();
        let mut i: usize = 0;
        while i < nd
            invariant
                self.tasks.wf(),
                m0.contains_key(hash),
                links_ok(m0),
                nd == deps@.len(),
                i <= nd,
                deps@ == m0[hash].dependents@,
                deps@.no_duplicates(),
                self@.dom() == m0.dom().remove(hash),
                forall|x: BlockHash|
                    #[trigger] self@.contains_key(x) ==> self@[x].block == m0[x].block
                        && self@[x].taken == m0[x].taken && self@[x].listeners@ == m0[x].listeners@
                        && self@[x].dependents@ == m0[x].dependents@,
                forall|t: int, p: BlockHash|
                    0 <= t < i ==> (#[trigger] self@[deps@[t]].pending_parents@.contains(p) <==> (
                    m0[deps@[t]].pending_parents@.contains(p) && p != hash)),
                forall|t: int|
                    0 <= t < i ==> self@[#[trigger] deps@[t]].pending_parents@.no_duplicates(),
                forall|x: BlockHash|
                    #[trigger] self@.contains_key(x) && !deps@.subrange(0, i as int).contains(x)
                        ==> self@[x].pending_parents@ == m0[x].pending_parents@,
                forall|x: BlockHash|
                    #[trigger] ready@.contains(x) <==> (exists|t: int|
                        0 <= t < i && deps@[t] == x && m0[x].pending_parents@.len() == 1),
            decreases nd - i,
        {
            let d = deps[i];
            proof {
                assert(m0[hash].dependents@.contains(d));
                assert(m0.contains_key(d));
                assert(m0[d].pending_parents@.contains(hash));
                assert(d != hash);
                assert(!deps@.subrange(0, i as int).contains(d)) by {
                    if deps@.subrange(0, i as int).contains(d) {
                        let w = choose|w: int| 0 <= w < i && deps@[w] == d;
                        assert(deps@[w] == deps@[i as int]);
                    }
                }
            }
            let ghost mstart = self@;
            let ghost ready0 = ready@;
            let mut dtask = match self.tasks.remove(&d) {
                Some(t) => t,
                None => {
                    proof {
                        assert(false);
                    }
                    vstd::pervasive::unreached()
                },
            };
            let ghost dpend0 = dtask.pending_parents@;
            dtask.pending_parents = remove_hash(dtask.pending_parents, hash);
            let now_ready = dtask.pending_parents.len() == 0;
            self.tasks.push_absent(d, dtask);
            if now_ready {
                ready.push(d);
            }
            proof {
                assert(self@.dom() =~= m0.dom().remove(hash));
                assert(dpend0 == m0[d].pending_parents@);
                assert(dpend0.contains(hash));
                assert(dpend0.len() >= 1);
                assert(now_ready <==> m0[d].pending_parents@.len() == 1) by {
                    if dpend0.len() == 1 {
                        assert forall|p: BlockHash| #[trigger] dpend0.contains(p) implies p
                            == hash by {
                            let w = choose|w: int| 0 <= w < dpend0.len() && dpend0[w] == p;
                            let w2 = choose|w2: int| 0 <= w2 < dpend0.len() && dpend0[w2] == hash;
                            assert(w == 0 && w2 == 0);
                        }
                    } else {
                        // two distinct pending entries cannot both be `hash`
                        let w2 = choose|w2: int| 0 <= w2 < dpend0.len() && dpend0[w2] == hash;
                        let other: int = if w2 == 0 {
                            1
                        } else {
                            0
                        };
                        assert(dpend0[other] != hash);
                        assert(self@[d].pending_parents@.contains(dpend0[other]));
                    }
                }
                assert forall|x: BlockHash|
                    #[trigger] self@.contains_key(x) && x != d implies self@[x] == mstart[x] by {
                }
                assert forall|x: BlockHash|
                    #[trigger] self@.contains_key(x) implies self@[x].block == m0[x].block
                    && self@[x].taken == m0[x].taken && self@[x].listeners@ == m0[x].listeners@
                    && self@[x].dependents@ == m0[x].dependents@ by {
                    if x == d {
                        assert(self@[d].block == mstart[d].block);
                        assert(self@[d].taken == mstart[d].taken);
                        assert(self@[d].listeners@ == mstart[d].listeners@);
                        assert(self@[d].dependents@ == mstart[d].dependents@);
                    } else {
                        assert(self@[x] == mstart[x]);
                    }
                }
                assert forall|t: int|
                    0 <= t < i + 1 implies self@[#[trigger] deps@[t]].pending_parents@.no_duplicates() by {
                    assert(m0[hash].dependents@.contains(deps@[t]));
                    assert(m0.contains_key(deps@[t]));
                    assert(deps@[t] != hash);
                    assert(self@.contains_key(deps@[t]));
                    if t < i {
                        assert(deps@[t] != d);
                        assert(self@[deps@[t]] == mstart[deps@[t]]);
                    } else {
                        assert(deps@[t] == d);
                    }
                }
                assert forall|t: int, p: BlockHash|
                    0 <= t < i + 1 implies (#[trigger] self@[deps@[t]].pending_parents@.contains(p)
                    <==> (m0[deps@[t]].pending_parents@.contains(p) && p != hash)) by {
                    assert(m0[hash].dependents@.contains(deps@[t]));
                    assert(m0.contains_key(deps@[t]));
                    assert(deps@[t] != hash);
                    assert(self@.contains_key(deps@[t]));
                    if t < i {
                        assert(deps@[t] != d);
                        assert(mstart.contains_key(deps@[t]));
                        assert(self@[deps@[t]] == mstart[deps@[t]]);
                        assert(mstart[deps@[t]].pending_parents@.contains(p) <==> (m0[
                            deps@[t]
                        ].pending_parents@.contains(p) && p != hash));
                    } else {
                        assert(deps@[t] == d);
                    }
                }
                assert forall|x: BlockHash|
                    #[trigger] self@.contains_key(x) && !deps@.subrange(0, i + 1).contains(
                        x,
                    ) implies self@[x].pending_parents@ == m0[x].pending_parents@ by {
                    assert(deps@.subrange(0, i + 1)[i as int] == d);
                    assert(x != d);
                    assert(!deps@.subrange(0, i as int).contains(x)) by {
                        if deps@.subrange(0, i as int).contains(x) {
                            let w = choose|w: int|
                                0 <= w < i && #[trigger] deps@.subrange(0, i as int)[w] == x;
                            assert(deps@.subrange(0, i + 1)[w] == x);
                        }
                    }
                    assert(self@[x] == mstart[x]);
                }
                assert forall|x: BlockHash| #[trigger] ready@.contains(x) implies (exists|t: int|
                    0 <= t < i + 1 && deps@[t] == x && m0[x].pending_parents@.len() == 1) by {
                    let w = choose|w: int| 0 <= w < ready@.len() && ready@[w] == x;
                    if now_ready && w == ready@.len() - 1 {
                        assert(deps@[i as int] == x);
                    } else {
                        assert(ready0[w] == x);
                        assert(ready0.contains(x));
                        let t = choose|t: int|
                            0 <= t < i && deps@[t] == x && m0[x].pending_parents@.len() == 1;
                    }
                }
                assert forall|x: BlockHash|
                    (exists|t: int|
                        0 <= t < i + 1 && deps@[t] == x && m0[x].pending_parents@.len()
                            == 1) implies #[trigger] ready@.contains(x) by {
                    let t = choose|t: int|
                        0 <= t < i + 1 && deps@[t] == x && m0[x].pending_parents@.len() == 1;
                    if t == i as int {
                        assert(x == d);
                        assert(ready@[ready@.len() - 1] == x);
                    } else {
                        assert(ready0.contains(x));
                        let w = choose|w: int| 0 <= w < ready0.len() && ready0[w] == x;
                        assert(ready@[w] == x);
                    }
                }
            }
            i += 1;
        }
        proof {
            assert(deps@.subrange(0, nd as int) =~= deps@);
            let m = self@;
            assert(links_ok(m)) by {
                assert forall|dd: BlockHash, p: BlockHash|
                    m.contains_key(dd) && #[trigger] m[dd].pending_parents@.contains(
                        p,
                    ) implies m.contains_key(p) && m[p].dependents@.contains(dd) by {
                    if deps@.contains(dd) {
                        assert(m0[dd].pending_parents@.contains(p) && p != hash);
                    } else {
                        assert(m[dd].pending_parents@ == m0[dd].pending_parents@);
                        assert(m0[dd].pending_parents@.contains(p));
                        assert(m0[p].dependents@.contains(dd));
                        assert(p != hash) by {
                            if p == hash {
                                assert(m0[hash].dependents@.contains(dd));
                                assert(deps@.contains(dd));
                            }
                        }
                    }
                }
                assert forall|p: BlockHash, dd: BlockHash|
                    m.contains_key(p) && #[trigger] m[p].dependents@.contains(
                        dd,
                    ) implies m.contains_key(dd) && m[dd].pending_parents@.contains(p) by {
                    assert(m0[p].dependents@.contains(dd));
                    assert(m0.contains_key(dd));
                    assert(m0[dd].pending_parents@.contains(p));
                    assert(dd != hash) by {
                        if dd == hash {
                            assert(m0[hash].pending_parents@.contains(p));
                            assert(m0[p].dependents@.contains(hash));
                        }
                    }
                    if deps@.contains(dd) {
                        assert(p != hash);
                    } else {
                        assert(m[dd].pending_parents@ == m0[dd].pending_parents@);
                    }
                }
            }
            assert forall|x: BlockHash| #[trigger] ready@.contains(x) implies (m0.contains_key(x)
                && x != hash && m0[x].pending_parents@.contains(hash)
                && m0[x].pending_parents@.len() == 1) by {
                let t = choose|t: int|
                    0 <= t < nd && deps@[t] == x && m0[#[trigger] deps@[t]].pending_parents@.len()
                        == 1;
                assert(deps@[t] == x);
                assert(m0[hash].dependents@.contains(x));
                assert(m0.contains_key(x));
            }
            assert forall|x: BlockHash|
                (m0.contains_key(x) && x != hash && m0[x].pending_parents@.contains(hash) && m0[
                    x
                ].pending_parents@.len() == 1) implies #[trigger] ready@.contains(x) by {
                assert(m0[hash].dependents@.contains(x));
                let t = choose|t: int| 0 <= t < deps@.len() && deps@[t] == x;
            }
        }
        (task.block, task.listeners, ready)
    }
}

/// The vector without any occurrence of `hash`, order kept. When the vector
/// held no duplicates the result is the vector with `hash`'s single
/// occurrence removed.
fn remove_hash(v: Vec<BlockHash>, hash: BlockHash) -> (r: Vec<BlockHash>)
    requires
        v@.no_duplicates(),
    ensures
        r@.no_duplicates(),
        forall|p: BlockHash| #[trigger] r@.contains(p) <==> (v@.contains(p) && p != hash),
        v@.contains(hash) ==> r@.len() == v@.len() - 1,
        !v@.contains(hash) ==> r@ == v@,
{
    let n = v.len();
    let mut r: Vec<BlockHash> = Vec::new();
    let mut i: usize = 0;
    let mut skipped: usize = 0;
    while i < n
        invariant
            n == v@.len(),
            i <= n,
            v@.no_duplicates(),
            skipped <= 1,
            r@.len() == i - skipped,
            (skipped == 1) <==> v@.subrange(0, i as int).contains(hash),
            forall|p: BlockHash| #[trigger] r@.contains(p) <==> (v@.subrange(0, i as int).contains(
                p,
            ) && p != hash),
            forall|t: int, u: int| 0 <= t < u < r@.len() ==> r@[t] != r@[u],
            skipped == 0 ==> r@ == v@.subrange(0, i as int),
        decreases n - i,
    {
        let x = v[i];
        let ghost r0 = r@;
        if x.eq_hash(&hash) {
            proof {
                if v@.subrange(0, i as int).contains(hash) {
                    let w = choose|w: int| 0 <= w < i && v@.subrange(0, i as int)[w] == hash;
                    assert(v@[w] == v@[i as int]);
                }
                assert(v@.subrange(0, i + 1).contains(hash)) by {
                    assert(v@.subrange(0, i + 1)[i as int] == hash);
                }
                assert forall|p: BlockHash|
                    (v@.subrange(0, i + 1).contains(p) && p != hash) implies #[trigger] r@.contains(
                    p,
                ) by {
                    let w = choose|w: int|
                        0 <= w < i + 1 && #[trigger] v@.subrange(0, i + 1)[w] == p;
                    assert(w < i);
                    assert(v@.subrange(0, i as int)[w] == p);
                }
            }
            skipped = 1;
        } else {
            r.push(x);
            proof {
                assert forall|p: BlockHash| #[trigger] r@.contains(p) implies (v@.subrange(
                    0,
                    i + 1,
                ).contains(p) && p != hash) by {
                    let w = choose|w: int| 0 <= w < r@.len() && r@[w] == p;
                    if w == r@.len() - 1 {
                        assert(v@.subrange(0, i + 1)[i as int] == p);
                    } else {
                        assert(r0.contains(p));
                        let w2 = choose|w2: int|
                            0 <= w2 < i && v@.subrange(0, i as int)[w2] == p;
                        assert(v@.subrange(0, i + 1)[w2] == p);
                    }
                }
                assert forall|t: int, u: int| 0 <= t < u < r@.len() implies r@[t] != r@[u] by {
                    if u == r@.len() - 1 {
                        assert(r0.contains(r@[t]));
                        assert(v@.subrange(0, i as int).contains(r@[t]));
                        let w2 = choose|w2: int| 0 <= w2 < i && v@[w2] == r@[t];
                        assert(v@[i as int] == r@[u]);
                    }
                }
                assert forall|p: BlockHash|
                    (v@.subrange(0, i + 1).contains(p) && p != hash) implies #[trigger] r@.contains(
                    p,
                ) by {
                    let w = choose|w: int|
                        0 <= w < i + 1 && #[trigger] v@.subrange(0, i + 1)[w] == p;
                    if w < i {
                        assert(v@.subrange(0, i as int)[w] == p);
                        assert(r0.contains(p));
                        let w2 = choose|w2: int| 0 <= w2 < r0.len() && r0[w2] == p;
                        assert(r@[w2] == p);
                    } else {
                        assert(v@[i as int] == p);
                        assert(r@[r@.len() - 1] == p);
                    }
                }
                if skipped == 0 {
                    assert(r@ =~= v@.subrange(0, i + 1));
                }
            }
        }
        proof {
            if v@.subrange(0, i as int).contains(hash) {
                assert(v@.subrange(0, i + 1).contains(hash)) by {
                    let w = choose|w: int| 0 <= w < i && v@.subrange(0, i as int)[w] == hash;
                    assert(v@.subrange(0, i + 1)[w] == hash);
                }
            }
        }
        i += 1;
    }
    proof {
        assert(v@.subrange(0, n as int) =~= v@);
        if !v@.contains(hash) {
            assert(skipped == 0);
            assert(r@ == v@.subrange(0, n as int));
        }
    }
    r
}

} // verus!
