//! Fixed-capacity pool of worker slots with exclusive checkout.
//!
//! A `Pool` tracks worker slots by id.  Each worker is `Idle`, `Busy` with the
//! id of the request that holds it, or has been observed `Dead`.  Callers that
//! find no idle worker queue as waiters and are served strictly in arrival
//! order.  A worker reported dead on release is discarded so that it can never
//! be handed out again; a replacement spawn is the caller's next step.

use vstd::prelude::*;

verus! {

use vstd::pervasive::VecAdditionalExecFns;

/// State of one worker slot.  A `Busy` worker carries the id of the request
/// that currently holds it.
#[derive(PartialEq, Eq, Structural, Clone, Copy, Debug)]
pub enum WorkerState {
    Idle,
    Busy(u64),
    Dead,
}

/// One worker slot: a stable id plus its current state.  The id stands for
/// the external process handle, which the surrounding runtime owns.
#[derive(PartialEq, Eq, Structural, Clone, Copy, Debug)]
pub struct Worker {
    pub id: u64,
    pub state: WorkerState,
}

/// Error from pool construction.
#[derive(PartialEq, Eq, Structural, Clone, Copy, Debug)]
pub enum PoolError {
    ZeroCapacity,
}

/// Result of an acquire attempt: a worker id granted exclusively, or an
/// instruction to wait (the request was queued).
#[derive(PartialEq, Eq, Structural, Clone, Copy, Debug)]
pub enum AcquireOutcome {
    Granted(u64),
    Wait,
}

/// Result of a release: the worker went back to idle, was handed straight to
/// the oldest waiter, or was discarded because it is dead.
#[derive(PartialEq, Eq, Structural, Clone, Copy, Debug)]
pub enum ReleaseOutcome {
    Idled,
    HandedTo(u64),
    Discarded,
}

/// Result of registering a freshly spawned worker: it is idle, or it was
/// handed straight to the oldest waiter.
#[derive(PartialEq, Eq, Structural, Clone, Copy, Debug)]
pub enum SpawnOutcome {
    AddedIdle(u64),
    AddedBusy(u64, u64),
}

/// Number of busy workers in a sequence of slots.
pub open spec fn count_busy(s: Seq<Worker>) -> nat
    decreases s.len(),
{
    if s.len() == 0 {
        0
    } else {
        count_busy(s.drop_last()) + if s.last().state is Busy {
            1nat
        } else {
            0nat
        }
    }
}

/// The pool: a bounded set of worker slots plus the FIFO queue of waiting
/// request ids.
pub struct Pool {
    pub capacity: usize,
    pub workers: Vec<Worker>,
    pub waiters: Vec<u64>,
    pub next_id: u64,
}

impl Pool {
    /// Some worker slot is idle.
    pub open spec fn has_idle(self) -> bool {
        exists|i: int| 0 <= i < self.workers@.len() && (#[trigger] self.workers@[i]).state is Idle
    }

    /// The request id `req` currently holds a worker.
    pub open spec fn is_owner(self, req: u64) -> bool {
        exists|i: int|
            0 <= i < self.workers@.len() && (#[trigger] self.workers@[i]).state
                == WorkerState::Busy(req)
    }

    /// The request id `req` is queued as a waiter.
    pub open spec fn is_waiter(self, req: u64) -> bool {
        self.waiters@.contains(req)
    }

    /// The request id `req` takes part in the pool in any role.
    pub open spec fn involves(self, req: u64) -> bool {
        self.is_owner(req) || self.is_waiter(req)
    }

    /// The worker with id `w` exists and is busy.
    pub open spec fn holds_busy(self, w: u64) -> bool {
        exists|i: int|
            0 <= i < self.workers@.len() && (#[trigger] self.workers@[i]).id == w
                && self.workers@[i].state is Busy
    }

    /// Number of checked-out workers.
    pub open spec fn busy_count(self) -> nat {
        count_busy(self.workers@)
    }

    /// Well-formedness: the capacity bound, distinct worker ids below the id
    /// counter, one owner per worker and per request, a duplicate-free waiter
    /// queue disjoint from the owners, and work conservation (nobody waits
    /// while a worker idles).
    pub open spec fn wf(self) -> bool {
        &&& self.capacity > 0
        &&& self.workers@.len() <= self.capacity
        &&& forall|i: int, j: int|
            #![trigger self.workers@[i].id, self.workers@[j].id]
            0 <= i < j < self.workers@.len() ==> self.workers@[i].id != self.workers@[j].id
        &&& forall|i: int|
            0 <= i < self.workers@.len() ==> (#[trigger] self.workers@[i]).id < self.next_id
        &&& forall|i: int, j: int|
            #![trigger self.workers@[i].state, self.workers@[j].state]
            0 <= i < j < self.workers@.len() && self.workers@[i].state is Busy
                && self.workers@[j].state is Busy ==> self.workers@[i].state->Busy_0
                != self.workers@[j].state->Busy_0
        &&& forall|i: int, j: int|
            #![trigger self.waiters@[i], self.waiters@[j]]
            0 <= i < j < self.waiters@.len() ==> self.waiters@[i] != self.waiters@[j]
        &&& forall|i: int, j: int|
            #![trigger self.workers@[i].state, self.waiters@[j]]
            0 <= i < self.workers@.len() && 0 <= j < self.waiters@.len()
                && self.workers@[i].state is Busy ==> self.workers@[i].state->Busy_0
                != self.waiters@[j]
        &&& self.waiters@.len() > 0 ==> !self.has_idle()
    }

    /// Creates an empty pool.  Workers are added as their processes spawn.
    pub fn new(capacity: usize) -> (r: Result<Pool, PoolError>)
        ensures
            match r {
                Ok(p) => {
                    &&& capacity > 0
                    &&& p.wf()
                    &&& p.capacity == capacity
                    &&& p.workers@.len() == 0
                    &&& p.waiters@.len() == 0
                    &&& p.next_id == 0
                },
                Err(e) => capacity == 0 && e == PoolError::ZeroCapacity,
            },
    {
        if capacity == 0 {
            Err(PoolError::ZeroCapacity)
        } else {
            Ok(Pool { capacity, workers: Vec::new(), waiters: Vec::new(), next_id: 0 })
        }
    }

    /// There is room to spawn another worker.
    pub fn below_capacity(&self) -> (r: bool)
        ensures
            r == (self.workers@.len() < self.capacity),
    {
        self.workers.len() < self.capacity
    }

    /// The pool currently holds no worker slot at all.
    pub fn is_empty(&self) -> (r: bool)
        ensures
            r == (self.workers@.len() == 0),
    {
        self.workers.len() == 0
    }
}

/// Relation between a pool before and after an acquire that granted worker
/// `w` to request `req`: the worker was idle, it is now busy with owner
/// `req`, and nothing else changed.
pub open spec fn acquire_grant(pre: Pool, post: Pool, req: u64, w: u64) -> bool {
    &&& exists|i: int|
        0 <= i < pre.workers@.len() && (#[trigger] pre.workers@[i]).id == w
            && pre.workers@[i].state is Idle && post.workers@ == pre.workers@.update(
            i,
            Worker { id: w, state: WorkerState::Busy(req) },
        )
    &&& post.waiters@ == pre.waiters@
    &&& post.capacity == pre.capacity
    &&& post.next_id == pre.next_id
}

/// Relation between a pool before and after an acquire that queued request
/// `req`: no worker was idle, and `req` joined the back of the queue.
pub open spec fn acquire_wait(pre: Pool, post: Pool, req: u64) -> bool {
    &&& !pre.has_idle()
    &&& post.workers@ == pre.workers@
    &&& post.waiters@ == pre.waiters@.push(req)
    &&& post.capacity == pre.capacity
    &&& post.next_id == pre.next_id
}

/// Relation for a release with no waiters: worker `w` went from busy back to
/// idle and nothing else changed.
pub open spec fn release_to_idle(pre: Pool, post: Pool, w: u64) -> bool {
    &&& pre.waiters@.len() == 0
    &&& exists|i: int|
        0 <= i < pre.workers@.len() && (#[trigger] pre.workers@[i]).id == w
            && pre.workers@[i].state is Busy && post.workers@ == pre.workers@.update(
            i,
            Worker { id: w, state: WorkerState::Idle },
        )
    &&& post.waiters@ == pre.waiters@
    &&& post.capacity == pre.capacity
    &&& post.next_id == pre.next_id
}

/// Relation for a release that handed worker `w` straight to the oldest
/// waiter `served`: the head of the queue became the new owner.
pub open spec fn release_handoff(pre: Pool, post: Pool, w: u64, served: u64) -> bool {
    &&& pre.waiters@.len() > 0
    &&& served == pre.waiters@[0]
    &&& exists|i: int|
        0 <= i < pre.workers@.len() && (#[trigger] pre.workers@[i]).id == w
            && pre.workers@[i].state is Busy && post.workers@ == pre.workers@.update(
            i,
            Worker { id: w, state: WorkerState::Busy(served) },
        )
    &&& post.waiters@ == pre.waiters@.drop_first()
    &&& post.capacity == pre.capacity
    &&& post.next_id == pre.next_id
}

/// Relation for a release of a dead worker: slot `w` was removed outright, so
/// it can never be granted again.
pub open spec fn release_discard(pre: Pool, post: Pool, w: u64) -> bool {
    &&& exists|i: int|
        0 <= i < pre.workers@.len() && (#[trigger] pre.workers@[i]).id == w
            && pre.workers@[i].state is Busy && post.workers@ == pre.workers@.remove(i)
    &&& post.waiters@ == pre.waiters@
    &&& post.capacity == pre.capacity
    &&& post.next_id == pre.next_id
}

/// Relation for registering a freshly spawned worker: it takes the next id;
/// it starts idle, or busy with the oldest waiter if one was queued.
pub open spec fn spawn_transition(pre: Pool, post: Pool, r: SpawnOutcome) -> bool {
    &&& post.capacity == pre.capacity
    &&& post.next_id == pre.next_id + 1
    &&& match r {
        SpawnOutcome::AddedIdle(w) => {
            &&& w == pre.next_id
            &&& pre.waiters@.len() == 0
            &&& post.workers@ == pre.workers@.push(Worker { id: w, state: WorkerState::Idle })
            &&& post.waiters@ == pre.waiters@
        },
        SpawnOutcome::AddedBusy(w, q) => {
            &&& w == pre.next_id
            &&& pre.waiters@.len() > 0
            &&& q == pre.waiters@[0]
            &&& post.workers@ == pre.workers@.push(Worker { id: w, state: WorkerState::Busy(q) })
            &&& post.waiters@ == pre.waiters@.drop_first()
        },
    }
}

/// Well-formedness survives replacing the state of one slot, provided a new
/// busy owner is fresh and an idling slot only appears with an empty queue.
proof fn lemma_wf_update(pre: Pool, post: Pool, i: int, nw: Worker)
    requires
        pre.wf(),
        0 <= i < pre.workers@.len(),
        nw.id == pre.workers@[i].id,
        post.workers@ == pre.workers@.update(i, nw),
        post.capacity == pre.capacity,
        post.next_id == pre.next_id,
        post.waiters@ == pre.waiters@ || (pre.waiters@.len() > 0 && post.waiters@
            == pre.waiters@.drop_first()),
        nw.state is Busy ==> !pre.is_owner(nw.state->Busy_0) && !post.waiters@.contains(
            nw.state->Busy_0,
        ),
        nw.state is Idle ==> post.waiters@.len() == 0,
    ensures
        post.wf(),
{
    assert forall|a: int, b: int|
        #![trigger post.workers@[a].state, post.workers@[b].state]
        0 <= a < b < post.workers@.len() && post.workers@[a].state is Busy
            && post.workers@[b].state is Busy implies post.workers@[a].state->Busy_0
        != post.workers@[b].state->Busy_0 by {
        if a == i {
            if nw.state is Busy && post.workers@[b].state->Busy_0 == nw.state->Busy_0 {
                assert(pre.workers@[b].state == WorkerState::Busy(nw.state->Busy_0));
            }
        } else if b == i {
            if nw.state is Busy && post.workers@[a].state->Busy_0 == nw.state->Busy_0 {
                assert(pre.workers@[a].state == WorkerState::Busy(nw.state->Busy_0));
            }
        }
    }
    let dropped = pre.waiters@.len() > 0 && post.waiters@ == pre.waiters@.drop_first()
        && post.waiters@ != pre.waiters@;
    if dropped {
        assert forall|a: int, b: int|
            #![trigger post.waiters@[a], post.waiters@[b]]
            0 <= a < b < post.waiters@.len() implies post.waiters@[a] != post.waiters@[b] by {
            assert(post.waiters@[a] == pre.waiters@[a + 1]);
            assert(post.waiters@[b] == pre.waiters@[b + 1]);
        }
    }
    assert forall|a: int, b: int|
        #![trigger post.workers@[a].state, post.waiters@[b]]
        0 <= a < post.workers@.len() && 0 <= b < post.waiters@.len()
            && post.workers@[a].state is Busy implies post.workers@[a].state->Busy_0
        != post.waiters@[b] by {
        if dropped {
            assert(post.waiters@[b] == pre.waiters@[b + 1]);
        } else {
            assert(post.waiters@[b] == pre.waiters@[b]);
        }
        if a != i {
            assert(pre.workers@[a].state == post.workers@[a].state);
        }
    }
    if post.waiters@.len() > 0 {
        assert(pre.waiters@.len() > 0);
        assert(!pre.has_idle());
        assert forall|k: int|
            0 <= k < post.workers@.len() implies !((#[trigger] post.workers@[k]).state
            is Idle) by {
            if k != i {
                assert(pre.workers@[k].state == post.workers@[k].state);
            }
        }
    }
}

/// Well-formedness survives removing a slot.
proof fn lemma_wf_remove(pre: Pool, post: Pool, i: int)
    requires
        pre.wf(),
        0 <= i < pre.workers@.len(),
        post.workers@ == pre.workers@.remove(i),
        post.waiters@ == pre.waiters@,
        post.capacity == pre.capacity,
        post.next_id == pre.next_id,
        pre.workers@[i].state is Busy,
    ensures
        post.wf(),
{
    pre.workers@.remove_ensures(i);
    assert forall|k: int| 0 <= k < post.workers@.len() implies #[trigger] post.workers@[k]
        == pre.workers@[if k < i {
        k
    } else {
        k + 1
    }] by {}
    if post.waiters@.len() > 0 {
        assert(!pre.has_idle());
        assert forall|k: int|
            0 <= k < post.workers@.len() implies !((#[trigger] post.workers@[k]).state
            is Idle) by {}
    }
}

/// Well-formedness survives adding a fresh slot, idle only when nobody
/// waits, or owned by the head waiter.
proof fn lemma_wf_push(pre: Pool, post: Pool, nw: Worker)
    requires
        pre.wf(),
        pre.workers@.len() < pre.capacity,
        pre.next_id < u64::MAX,
        nw.id == pre.next_id,
        post.workers@ == pre.workers@.push(nw),
        post.capacity == pre.capacity,
        post.next_id == pre.next_id + 1,
        (nw.state is Idle && post.waiters@ == pre.waiters@ && pre.waiters@.len() == 0) || (
        nw.state is Busy && pre.waiters@.len() > 0 && nw.state->Busy_0 == pre.waiters@[0]
            && post.waiters@ == pre.waiters@.drop_first()),
    ensures
        post.wf(),
{
    let n = pre.workers@.len() as int;
    assert forall|k: int| 0 <= k < n implies #[trigger] post.workers@[k] == pre.workers@[k] by {}
    assert(post.workers@[n] == nw);
    if nw.state is Busy {
        let q = nw.state->Busy_0;
        assert forall|a: int, b: int|
            #![trigger post.waiters@[a], post.waiters@[b]]
            0 <= a < b < post.waiters@.len() implies post.waiters@[a] != post.waiters@[b] by {
            assert(post.waiters@[a] == pre.waiters@[a + 1]);
            assert(post.waiters@[b] == pre.waiters@[b + 1]);
        }
        assert forall|a: int, b: int|
            #![trigger post.workers@[a].state, post.waiters@[b]]
            0 <= a < post.workers@.len() && 0 <= b < post.waiters@.len()
                && post.workers@[a].state is Busy implies post.workers@[a].state->Busy_0
            != post.waiters@[b] by {
            assert(post.waiters@[b] == pre.waiters@[b + 1]);
            if a < n {
                assert(pre.workers@[a].state is Busy);
            }
        }
        assert forall|a: int, b: int|
            #![trigger post.workers@[a].state, post.workers@[b].state]
            0 <= a < b < post.workers@.len() && post.workers@[a].state is Busy
                && post.workers@[b].state is Busy implies post.workers@[a].state->Busy_0
            != post.workers@[b].state->Busy_0 by {
            if b == n {
                assert(pre.workers@[a].state is Busy);
            }
        }
        if post.waiters@.len() > 0 {
            assert(!pre.has_idle());
            assert forall|k: int|
                0 <= k < post.workers@.len() implies !((#[trigger] post.workers@[k]).state
                is Idle) by {}
        }
    }
}

/// Well-formedness survives dropping one waiter.
proof fn lemma_wf_cancel(pre: Pool, post: Pool, i: int)
    requires
        pre.wf(),
        0 <= i < pre.waiters@.len(),
        post.waiters@ == pre.waiters@.remove(i),
        post.workers@ == pre.workers@,
        post.capacity == pre.capacity,
        post.next_id == pre.next_id,
    ensures
        post.wf(),
{
    pre.waiters@.remove_ensures(i);
    assert forall|k: int| 0 <= k < post.waiters@.len() implies #[trigger] post.waiters@[k]
        == pre.waiters@[if k < i {
        k
    } else {
        k + 1
    }] by {}
}

impl Pool {
    /// Exclusive checkout.  Grants an idle worker if one exists, otherwise
    /// queues `req` at the back of the waiter queue.  A granted worker was
    /// idle the moment before, so it is never dead and never shared.
    pub fn acquire(&mut self, req: u64) -> (r: AcquireOutcome)
        requires
            old(self).wf(),
            !old(self).involves(req),
        ensures
            final(self).wf(),
            match r {
                AcquireOutcome::Granted(w) => acquire_grant(*old(self), *final(self), req, w),
                AcquireOutcome::Wait => acquire_wait(*old(self), *final(self), req),
            },
            r is Wait <==> !old(self).has_idle(),
            final(self).is_owner(req) <==> r is Granted,
    {
        let n: usize = self.workers.len();
        let mut i: usize = 0;
        while i < n
            invariant
                n == self.workers@.len(),
                i <= n,
                forall|k: int| 0 <= k < i ==> !((#[trigger] self.workers@[k]).state is Idle),
                *self == *old(self),
                old(self).wf(),
                !old(self).involves(req),
            decreases n - i,
        {
            if matches!(self.workers[i].state, WorkerState::Idle) {
                let w: u64 = self.workers[i].id;
                self.workers.set(i, Worker { id: w, state: WorkerState::Busy(req) });
                proof {
                    let pre = *old(self);
                    assert(pre.workers@[i as int].id == w && pre.workers@[i as int].state is Idle);
                    assert(acquire_grant(pre, *self, req, w));
                    assert(pre.has_idle());
                    assert(pre.waiters@.len() == 0);
                    lemma_wf_update(
                        pre,
                        *self,
                        i as int,
                        Worker { id: w, state: WorkerState::Busy(req) },
                    );
                    assert(self.workers@[i as int].state == WorkerState::Busy(req));
                }
                return AcquireOutcome::Granted(w);
            }
            i += 1;
        }
        self.waiters.push(req);
        proof {
            let pre = *old(self);
            assert(!pre.has_idle());
            assert forall|a: int, b: int|
                #![trigger self.waiters@[a], self.waiters@[b]]
                0 <= a < b < self.waiters@.len() implies self.waiters@[a] != self.waiters@[b] by {
                if b == pre.waiters@.len() {
                    assert(self.waiters@[a] == pre.waiters@[a]);
                    assert(pre.waiters@.contains(pre.waiters@[a]));
                }
            }
            assert forall|a: int, b: int|
                #![trigger self.workers@[a].state, self.waiters@[b]]
                0 <= a < self.workers@.len() && 0 <= b < self.waiters@.len()
                    && self.workers@[a].state is Busy implies self.workers@[a].state->Busy_0
                != self.waiters@[b] by {
                if b == pre.waiters@.len() {
                    if self.workers@[a].state->Busy_0 == req {
                        assert(pre.workers@[a].state == WorkerState::Busy(req));
                    }
                }
            }
            assert(!self.is_owner(req) ==> !(exists|k: int|
                0 <= k < self.workers@.len() && (#[trigger] self.workers@[k]).state
                    == WorkerState::Busy(req)));
        }
        AcquireOutcome::Wait
    }

    /// Returns worker `w` after one request's use.  `dead` reports whether
    /// the worker's process failed during use.  A live worker goes back to
    /// idle or straight to the oldest waiter; a dead worker is discarded.
    pub fn release(&mut self, w: u64, dead: bool) -> (r: ReleaseOutcome)
        requires
            old(self).wf(),
            old(self).holds_busy(w),
        ensures
            final(self).wf(),
            match r {
                ReleaseOutcome::Idled => !dead && release_to_idle(*old(self), *final(self), w),
                ReleaseOutcome::HandedTo(q) => !dead && release_handoff(
                    *old(self),
                    *final(self),
                    w,
                    q,
                ),
                ReleaseOutcome::Discarded => dead && release_discard(*old(self), *final(self), w),
            },
            dead <==> r is Discarded,
    {
        let n: usize = self.workers.len();
        let mut i: usize = 0;
        while i < n
            invariant
                n == self.workers@.len(),
                i <= n,
                forall|k: int|
                    0 <= k < i ==> !((#[trigger] self.workers@[k]).id == w
                        && self.workers@[k].state is Busy),
                old(self).holds_busy(w),
                *self == *old(self),
                old(self).wf(),
            decreases n - i,
        {
            let here: bool = self.workers[i].id == w && matches!(
                self.workers[i].state,
                WorkerState::Busy(_),
            );
            if here {
                if dead {
                    self.workers.remove(i);
                    proof {
                        let pre = *old(self);
                        assert(release_discard(pre, *self, w));
                        lemma_wf_remove(pre, *self, i as int);
                    }
                    return ReleaseOutcome::Discarded;
                } else if self.waiters.len() > 0 {
                    let q: u64 = self.waiters.remove(0);
                    assert(self.waiters@ =~= old(self).waiters@.drop_first());
                    self.workers.set(i, Worker { id: w, state: WorkerState::Busy(q) });
                    proof {
                        let pre = *old(self);
                        assert(release_handoff(pre, *self, w, q));
                        assert(!pre.is_owner(q)) by {
                            if pre.is_owner(q) {
                                let k = choose|k: int|
                                    0 <= k < pre.workers@.len() && (#[trigger] pre.workers@[k]).state
                                        == WorkerState::Busy(q);
                                assert(pre.workers@[k].state->Busy_0 == pre.waiters@[0]);
                            }
                        }
                        assert(!self.waiters@.contains(q)) by {
                            if self.waiters@.contains(q) {
                                let k = choose|k: int|
                                    0 <= k < self.waiters@.len() && self.waiters@[k] == q;
                                assert(pre.waiters@[k + 1] == q);
                                assert(pre.waiters@[0] == q);
                            }
                        }
                        lemma_wf_update(
                            pre,
                            *self,
                            i as int,
                            Worker { id: w, state: WorkerState::Busy(q) },
                        );
                    }
                    return ReleaseOutcome::HandedTo(q);
                } else {
                    self.workers.set(i, Worker { id: w, state: WorkerState::Idle });
                    proof {
                        let pre = *old(self);
                        assert(release_to_idle(pre, *self, w));
                        lemma_wf_update(
                            pre,
                            *self,
                            i as int,
                            Worker { id: w, state: WorkerState::Idle },
                        );
                    }
                    return ReleaseOutcome::Idled;
                }
            }
            i += 1;
        }
        proof {
            assert(false);
        }
        ReleaseOutcome::Idled
    }

    /// Removes a queued waiter that abandoned its wait.  The queue keeps its
    /// order; the workers are untouched, so no slot leaks.
    pub fn cancel_wait(&mut self, req: u64)
        requires
            old(self).wf(),
        ensures
            final(self).wf(),
            final(self).workers@ == old(self).workers@,
            final(self).waiters@ == old(self).waiters@.remove_value(req),
            final(self).capacity == old(self).capacity,
            final(self).next_id == old(self).next_id,
            !final(self).is_waiter(req),
    {
        let n: usize = self.waiters.len();
        let mut i: usize = 0;
        while i < n
            invariant
                n == self.waiters@.len(),
                i <= n,
                forall|k: int| 0 <= k < i ==> self.waiters@[k] != req,
                *self == *old(self),
                old(self).wf(),
            decreases n - i,
        {
            if self.waiters[i] == req {
                self.waiters.remove(i);
                proof {
                    let pre = *old(self);
                    assert(pre.waiters@.index_of_first(req) == Some(i as int)) by {
                        pre.waiters@.index_of_first_ensures(req);
                        if pre.waiters@.index_of_first(req) is None {
                            assert(pre.waiters@[i as int] == req);
                            assert(pre.waiters@.contains(req));
                        }
                    }
                    assert(self.waiters@ == pre.waiters@.remove_value(req));
                    lemma_wf_cancel(pre, *self, i as int);
                    pre.waiters@.remove_ensures(i as int);
                    assert(!self.waiters@.contains(req)) by {
                        if self.waiters@.contains(req) {
                            let k = choose|k: int|
                                0 <= k < self.waiters@.len() && self.waiters@[k] == req;
                            if k < i {
                                assert(pre.waiters@[k] == req);
                            } else {
                                assert(pre.waiters@[k + 1] == req);
                                assert(pre.waiters@[i as int] == req);
                            }
                        }
                    }
                }
                return ;
            }
            i += 1;
        }
        proof {
            assert(!old(self).waiters@.contains(req)) by {
                if old(self).waiters@.contains(req) {
                    let k = choose|k: int|
                        0 <= k < old(self).waiters@.len() && old(self).waiters@[k] == req;
                }
            }
            old(self).waiters@.index_of_first_ensures(req);
        }
    }

    /// Registers a freshly spawned worker under a new id.  If a waiter is
    /// queued, the new worker goes straight to the oldest one.
    pub fn worker_spawned(&mut self) -> (r: SpawnOutcome)
        requires
            old(self).wf(),
            old(self).workers@.len() < old(self).capacity,
            old(self).next_id < u64::MAX,
        ensures
            final(self).wf(),
            spawn_transition(*old(self), *final(self), r),
    {
        let w: u64 = self.next_id;
        self.next_id = self.next_id + 1;
        if self.waiters.len() > 0 {
            let q: u64 = self.waiters.remove(0);
            assert(self.waiters@ =~= old(self).waiters@.drop_first());
            self.workers.push(Worker { id: w, state: WorkerState::Busy(q) });
            proof {
                lemma_wf_push(*old(self), *self, Worker { id: w, state: WorkerState::Busy(q) });
            }
            SpawnOutcome::AddedBusy(w, q)
        } else {
            self.workers.push(Worker { id: w, state: WorkerState::Idle });
            proof {
                lemma_wf_push(*old(self), *self, Worker { id: w, state: WorkerState::Idle });
            }
            SpawnOutcome::AddedIdle(w)
        }
    }

    /// Empties the waiter queue, returning the waiters in arrival order, for
    /// the moment when no worker can be provisioned at all and every waiter
    /// must be told the pool is unavailable.
    pub fn fail_waiters(&mut self) -> (r: Vec<u64>)
        requires
            old(self).wf(),
        ensures
            final(self).wf(),
            r@ == old(self).waiters@,
            final(self).waiters@.len() == 0,
            final(self).workers@ == old(self).workers@,
            final(self).capacity == old(self).capacity,
            final(self).next_id == old(self).next_id,
    {
        let mut r: Vec<u64> = Vec::new();
        assert(r@ + self.waiters@ =~= old(self).waiters@);
        while self.waiters.len() > 0
            invariant
                r@ + self.waiters@ == old(self).waiters@,
                self.workers@ == old(self).workers@,
                self.capacity == old(self).capacity,
                self.next_id == old(self).next_id,
                old(self).wf(),
            decreases self.waiters@.len(),
        {
            let ghost prev_r: Seq<u64> = r@;
            let ghost prev_w: Seq<u64> = self.waiters@;
            let q: u64 = self.waiters.remove(0);
            r.push(q);
            proof {
                prev_w.remove_ensures(0);
                assert(r@ + self.waiters@ =~= prev_r + prev_w);
            }
        }
        assert(r@ =~= old(self).waiters@);
        r
    }
}

/// Busy workers are never more numerous than the slots.
proof fn lemma_count_busy_le_len(s: Seq<Worker>)
    ensures
        count_busy(s) <= s.len(),
    decreases s.len(),
{
    if s.len() > 0 {
        lemma_count_busy_le_len(s.drop_last());
    }
}

/// How the busy count moves under one slot update.
proof fn lemma_count_busy_update(s: Seq<Worker>, i: int, w: Worker)
    requires
        0 <= i < s.len(),
    ensures
        count_busy(s.update(i, w)) == count_busy(s) - (if s[i].state is Busy {
            1int
        } else {
            0int
        }) + (if w.state is Busy {
            1int
        } else {
            0int
        }),
    decreases s.len(),
{
    if i == s.len() - 1 {
        assert(s.update(i, w).drop_last() =~= s.drop_last());
    } else {
        assert(s.update(i, w).drop_last() =~= s.drop_last().update(i, w));
        assert(s.update(i, w).last() == s.last());
        lemma_count_busy_update(s.drop_last(), i, w);
    }
}

/// How the busy count moves when one slot is removed.
proof fn lemma_count_busy_remove(s: Seq<Worker>, i: int)
    requires
        0 <= i < s.len(),
    ensures
        count_busy(s.remove(i)) == count_busy(s) - (if s[i].state is Busy {
            1int
        } else {
            0int
        }),
    decreases s.len(),
{
    if i == s.len() - 1 {
        assert(s.remove(i) =~= s.drop_last());
    } else {
        assert(s.remove(i).drop_last() =~= s.drop_last().remove(i));
        assert(s.remove(i).last() == s.last());
        lemma_count_busy_remove(s.drop_last(), i);
    }
}

/// At every moment, the number of concurrently checked-out workers stays
/// within the pool's capacity.
pub proof fn lemma_capacity_invariant(p: Pool)
    requires
        p.wf(),
    ensures
        p.busy_count() <= p.capacity,
{
    lemma_count_busy_le_len(p.workers@);
}

/// No two busy slots are held by the same request: exclusive checkout.
pub proof fn lemma_exclusive_owners(p: Pool, i: int, j: int)
    requires
        p.wf(),
        0 <= i < p.workers@.len(),
        0 <= j < p.workers@.len(),
        i != j,
        p.workers@[i].state is Busy,
        p.workers@[j].state is Busy,
    ensures
        p.workers@[i].state->Busy_0 != p.workers@[j].state->Busy_0,
{
}

/// A grant hands out a worker that was idle the moment before — never one
/// that is dead, and never one that another request holds — and afterwards
/// the requester is its one owner.
pub proof fn lemma_grant_exclusive(pre: Pool, post: Pool, req: u64, w: u64)
    requires
        pre.wf(),
        acquire_grant(pre, post, req, w),
    ensures
        exists|i: int|
            0 <= i < pre.workers@.len() && (#[trigger] pre.workers@[i]).id == w
                && pre.workers@[i].state is Idle,
        post.is_owner(req),
{
    let i = choose|i: int|
        0 <= i < pre.workers@.len() && (#[trigger] pre.workers@[i]).id == w
            && pre.workers@[i].state is Idle && post.workers@ == pre.workers@.update(
            i,
            Worker { id: w, state: WorkerState::Busy(req) },
        );
    assert(post.workers@[i].state == WorkerState::Busy(req));
}

/// After a dead worker is discarded and a replacement spawns, the next grant
/// can never be the dead worker again.
pub proof fn lemma_liveness_after_failure(
    p0: Pool,
    p1: Pool,
    p2: Pool,
    p3: Pool,
    w: u64,
    o: SpawnOutcome,
    req: u64,
    g: u64,
)
    requires
        p0.wf(),
        release_discard(p0, p1, w),
        spawn_transition(p1, p2, o),
        acquire_grant(p2, p3, req, g),
    ensures
        g != w,
{
    let i = choose|i: int|
        0 <= i < p0.workers@.len() && (#[trigger] p0.workers@[i]).id == w
            && p0.workers@[i].state is Busy && p1.workers@ == p0.workers@.remove(i);
    p0.workers@.remove_ensures(i);
    assert forall|k: int| 0 <= k < p1.workers@.len() implies (#[trigger] p1.workers@[k]).id
        != w by {
        if k < i {
            assert(p1.workers@[k] == p0.workers@[k]);
        } else {
            assert(p1.workers@[k] == p0.workers@[k + 1]);
        }
    }
    assert(w < p0.next_id);
    let m = choose|m: int|
        0 <= m < p2.workers@.len() && (#[trigger] p2.workers@[m]).id == g
            && p2.workers@[m].state is Idle && p3.workers@ == p2.workers@.update(
            m,
            Worker { id: g, state: WorkerState::Busy(req) },
        );
    if m < p1.workers@.len() {
        assert(p2.workers@[m] == p1.workers@[m]);
    } else {
        assert(p2.workers@[m].id == p1.next_id);
    }
}

/// FIFO fairness over two consecutive handoffs: the waiter that arrived
/// first is served first, and the one behind it is served next.
pub proof fn lemma_fifo_two_releases(
    p0: Pool,
    p1: Pool,
    p2: Pool,
    wa: u64,
    wb: u64,
    s1: u64,
    s2: u64,
)
    requires
        p0.waiters@.len() >= 2,
        release_handoff(p0, p1, wa, s1),
        release_handoff(p1, p2, wb, s2),
    ensures
        s1 == p0.waiters@[0],
        s2 == p0.waiters@[1],
{
    assert(p1.waiters@[0] == p0.waiters@[1]);
}

/// A full acquire/release round trip leaves the pool exactly as it was: no
/// worker leaks, whatever the request did in between.
pub proof fn lemma_no_leak_round_trip(p0: Pool, p1: Pool, p2: Pool, req: u64, w: u64)
    requires
        p0.wf(),
        acquire_grant(p0, p1, req, w),
        release_to_idle(p1, p2, w),
    ensures
        p2.workers@ == p0.workers@,
        p2.waiters@ == p0.waiters@,
        p2.busy_count() == p0.busy_count(),
{
    let i = choose|i: int|
        0 <= i < p0.workers@.len() && (#[trigger] p0.workers@[i]).id == w
            && p0.workers@[i].state is Idle && p1.workers@ == p0.workers@.update(
            i,
            Worker { id: w, state: WorkerState::Busy(req) },
        );
    let j = choose|j: int|
        0 <= j < p1.workers@.len() && (#[trigger] p1.workers@[j]).id == w
            && p1.workers@[j].state is Busy && p2.workers@ == p1.workers@.update(
            j,
            Worker { id: w, state: WorkerState::Idle },
        );
    if i != j {
        assert(p1.workers@[i].id == p0.workers@[i].id);
        assert(p1.workers@[j].id == p0.workers@[j].id);
        assert(p0.workers@[i].id == p0.workers@[j].id);
        assert(false);
    }
    assert(p2.workers@ =~= p0.workers@);
}

/// A grant followed by a dead-worker discard also frees the request's hold:
/// the busy count returns to its starting value, and one slot is open for
/// the replacement spawn.
pub proof fn lemma_no_leak_after_failure(p0: Pool, p1: Pool, p2: Pool, req: u64, w: u64)
    requires
        p0.wf(),
        acquire_grant(p0, p1, req, w),
        release_discard(p1, p2, w),
    ensures
        p2.busy_count() == p0.busy_count(),
        p2.workers@.len() + 1 == p0.workers@.len(),
        p2.waiters@ == p0.waiters@,
{
    let i = choose|i: int|
        0 <= i < p0.workers@.len() && (#[trigger] p0.workers@[i]).id == w
            && p0.workers@[i].state is Idle && p1.workers@ == p0.workers@.update(
            i,
            Worker { id: w, state: WorkerState::Busy(req) },
        );
    let j = choose|j: int|
        0 <= j < p1.workers@.len() && (#[trigger] p1.workers@[j]).id == w
            && p1.workers@[j].state is Busy && p2.workers@ == p1.workers@.remove(j);
    if i != j {
        assert(p1.workers@[i].id == p0.workers@[i].id);
        assert(p1.workers@[j].id == p0.workers@[j].id);
        assert(p0.workers@[i].id == p0.workers@[j].id);
        assert(false);
    }
    lemma_count_busy_update(p0.workers@, i, Worker { id: w, state: WorkerState::Busy(req) });
    lemma_count_busy_remove(p1.workers@, i);
}

} // verus!
