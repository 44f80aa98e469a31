//! The pool's invariant holds at the start and after every transition.

use crate::message::JobOutcome;
use crate::model::{active, PoolModel, WorkerModel, WorkerState};
use vstd::prelude::*;

verus! {

/// One for a worker still in its loop, nothing for one that has terminated.
pub open spec fn weight(worker: WorkerModel) -> nat {
    if worker.state is Terminated {
        0
    } else {
        1
    }
}

/// No more workers are in their loops than there are workers.
pub proof fn lemma_active_bound(workers: Seq<WorkerModel>)
    ensures
        active(workers) <= workers.len(),
    decreases workers.len(),
{
    if workers.len() > 0 {
        lemma_active_bound(workers.drop_last());
    }
}

/// Replacing one worker changes the count of workers in their loops by the
/// difference between the two.
pub proof fn lemma_active_update(workers: Seq<WorkerModel>, i: int, worker: WorkerModel)
    requires
        0 <= i < workers.len(),
    ensures
        active(workers.update(i, worker)) + weight(workers[i]) == active(workers) + weight(worker),
    decreases workers.len(),
{
    let updated = workers.update(i, worker);
    if i == workers.len() - 1 {
        assert(updated.drop_last() =~= workers.drop_last());
    } else {
        assert(updated.drop_last() =~= workers.drop_last().update(i, worker));
        lemma_active_update(workers.drop_last(), i, worker);
    }
}

/// Every worker is in its loop exactly when the count says so.
pub proof fn lemma_active_all(workers: Seq<WorkerModel>)
    ensures
        active(workers) == workers.len() <==> forall|i: int|
            0 <= i < workers.len() ==> !((#[trigger] workers[i]).state is Terminated),
    decreases workers.len(),
{
    if workers.len() > 0 {
        let front = workers.drop_last();
        lemma_active_all(front);
        lemma_active_bound(front);
        if active(workers) == workers.len() {
            assert forall|i: int| 0 <= i < workers.len() implies !((
            #[trigger] workers[i]).state is Terminated) by {
                if i < front.len() {
                    assert(front[i] == workers[i]);
                }
            }
        } else if forall|i: int|
            0 <= i < workers.len() ==> !((#[trigger] workers[i]).state is Terminated) {
            assert forall|i: int| 0 <= i < front.len() implies !((
            #[trigger] front[i]).state is Terminated) by {
                assert(front[i] == workers[i]);
            }
        }
    }
}

/// No worker is in its loop exactly when the count is zero.
pub proof fn lemma_active_none(workers: Seq<WorkerModel>)
    ensures
        active(workers) == 0 <==> forall|i: int|
            0 <= i < workers.len() ==> (#[trigger] workers[i]).state is Terminated,
    decreases workers.len(),
{
    if workers.len() > 0 {
        let front = workers.drop_last();
        lemma_active_none(front);
        if active(workers) == 0 {
            assert forall|i: int| 0 <= i < workers.len() implies (
            #[trigger] workers[i]).state is Terminated by {
                if i < front.len() {
                    assert(front[i] == workers[i]);
                }
            }
        } else if forall|i: int|
            0 <= i < workers.len() ==> (#[trigger] workers[i]).state is Terminated {
            assert forall|i: int| 0 <= i < front.len() implies (
            #[trigger] front[i]).state is Terminated by {
                assert(front[i] == workers[i]);
            }
        }
    }
}

/// A new pool with at least one worker satisfies the invariant.
pub proof fn lemma_init_inv<J>(size: nat)
    requires
        size > 0,
    ensures
        PoolModel::<J>::init(size).inv(),
{
    let s = PoolModel::<J>::init(size);
    lemma_active_all(s.workers);
}

/// Submitting a job keeps the invariant.
pub proof fn lemma_submit_inv<J>(s: PoolModel<J>, job: J)
    requires
        s.inv(),
    ensures
        s.submit(job).inv(),
{
}

/// Entering the exclusive region keeps the invariant.
pub proof fn lemma_acquire_inv<J>(s: PoolModel<J>, w: int)
    requires
        s.inv(),
    ensures
        s.acquire(w).inv(),
{
    if s.can_acquire(w) {
        lemma_active_update(s.workers, w, s.workers[w].with_state(WorkerState::Dispatching));
    }
}

/// Taking a message keeps the invariant.
pub proof fn lemma_receive_inv<J>(s: PoolModel<J>, w: int)
    requires
        s.inv(),
    ensures
        s.receive(w).inv(),
{
    if s.can_receive(w) {
        let t = s.receive(w);
        lemma_active_update(s.workers, w, t.workers[w]);
        lemma_active_bound(s.workers);
        assert forall|k: int| 0 <= k < t.queue.len() implies ((#[trigger] t.queue[k]) is Terminate
            <==> k >= t.queue.len() - t.owed()) by {
            assert(t.queue[k] == s.queue[k + 1]);
        }
    }
}

/// The end of a job keeps the invariant, however the job ended.
pub proof fn lemma_finish_inv<J>(s: PoolModel<J>, w: int, outcome: JobOutcome)
    requires
        s.inv(),
    ensures
        s.finish(w, outcome).inv(),
{
    if s.can_finish(w) {
        lemma_active_update(s.workers, w, s.workers[w].after_job(outcome));
    }
}

/// The start of shutdown keeps the invariant.
pub proof fn lemma_shutdown_inv<J>(s: PoolModel<J>)
    requires
        s.inv(),
    ensures
        s.shutdown().inv(),
{
    if s.accepting {
        let t = s.shutdown();
        assert forall|k: int| 0 <= k < t.queue.len() implies ((#[trigger] t.queue[k]) is Terminate
            <==> k >= t.queue.len() - t.owed()) by {
            if k < s.queue.len() {
                assert(t.queue[k] == s.queue[k]);
            }
        }
    }
}

/// A join keeps the invariant.
pub proof fn lemma_join_inv<J>(s: PoolModel<J>, w: int)
    requires
        s.inv(),
    ensures
        s.join(w).inv(),
{
    if s.can_join(w) {
        lemma_active_update(s.workers, w, WorkerModel { joined: true, ..s.workers[w] });
    }
}

} // verus!
