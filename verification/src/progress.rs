//! The workers never get stuck with work at hand, and they cannot go on
//! forever without new work: what is left for them to do shrinks with every
//! step they take.

use crate::model::{active, running, PoolModel, WorkerModel};
use crate::safety::{lemma_active_bound, lemma_active_none};
use crate::trace::Event;
use vstd::prelude::*;

verus! {

/// One for a worker that is running a job, nothing for any other.
pub open spec fn load(worker: WorkerModel) -> nat {
    if worker.state is Running {
        1
    } else {
        0
    }
}

/// Replacing one worker changes the count of running workers by the
/// difference between the two.
pub proof fn lemma_running_update(workers: Seq<WorkerModel>, i: int, worker: WorkerModel)
    requires
        0 <= i < workers.len(),
    ensures
        running(workers.update(i, worker)) + load(workers[i]) == running(workers) + load(worker),
    decreases workers.len(),
{
    let updated = workers.update(i, worker);
    if i == workers.len() - 1 {
        assert(updated.drop_last() =~= workers.drop_last());
    } else {
        assert(updated.drop_last() =~= workers.drop_last().update(i, worker));
        lemma_running_update(workers.drop_last(), i, worker);
    }
}

impl<J> PoolModel<J> {
    /// A bound on the steps the workers can still take on what is in the
    /// pool now: three for each message queued (enter, receive, finish), one
    /// for each job being run, and one while the exclusive region is free.
    pub open spec fn work_left(self) -> nat {
        3 * self.queue.len() + running(self.workers) + if self.consumer is None {
            1nat
        } else {
            0nat
        }
    }

    /// Worker `w` can take a step of its loop.
    pub open spec fn worker_can_step(self, w: int) -> bool {
        self.can_acquire(w) || self.can_receive(w) || self.can_finish(w)
    }

    /// `event` is a step of some worker's loop, and that worker can take it.
    pub open spec fn is_worker_step(self, event: Event<J>) -> bool {
        match event {
            Event::Acquire(w) => self.can_acquire(w),
            Event::Receive(w) => self.can_receive(w),
            Event::Finish(w, outcome) => self.can_finish(w),
            _ => false,
        }
    }

    /// `events` are steps of workers' loops, each taken when it could be.
    pub open spec fn worker_steps(self, events: Seq<Event<J>>) -> bool
        decreases events.len(),
    {
        events.len() == 0 || (self.worker_steps(events.drop_last()) && self.run(
            events.drop_last(),
        ).is_worker_step(events.last()))
    }
}

/// Every step of a worker uses up some of the work that is left.
pub proof fn law_worker_step_uses_up_work<J>(s: PoolModel<J>, event: Event<J>)
    requires
        s.inv(),
        s.is_worker_step(event),
    ensures
        s.step(event).work_left() < s.work_left(),
{
    match event {
        Event::Acquire(w) => {
            lemma_running_update(s.workers, w, s.step(event).workers[w]);
        },
        Event::Receive(w) => {
            lemma_running_update(s.workers, w, s.step(event).workers[w]);
        },
        Event::Finish(w, outcome) => {
            lemma_running_update(s.workers, w, s.step(event).workers[w]);
        },
        _ => {},
    }
}

/// Without new submissions the workers come to rest: the steps they take,
/// in whatever order, are no more than the work that was left when they
/// began.
pub proof fn law_worker_steps_are_bounded<J>(s: PoolModel<J>, events: Seq<Event<J>>)
    requires
        s.inv(),
        s.worker_steps(events),
    ensures
        events.len() + s.run(events).work_left() <= s.work_left(),
    decreases events.len(),
{
    if events.len() > 0 {
        let earlier = events.drop_last();
        law_worker_steps_are_bounded(s, earlier);
        crate::laws::law_invariant_holds_always(s, earlier);
        law_worker_step_uses_up_work(s.run(earlier), events.last());
    }
}

/// The workers are never stuck with work at hand: while a message is queued
/// and a worker is in its loop, some worker can take a step. Before
/// shutdown every worker is in its loop, so a queued job is enough.
pub proof fn law_never_stuck<J>(s: PoolModel<J>)
    requires
        s.inv(),
        s.queue.len() > 0,
    ensures
        s.accepting ==> active(s.workers) > 0,
        active(s.workers) > 0 ==> exists|w: int| s.has_worker(w) && #[trigger] s.worker_can_step(w),
{
    lemma_active_none(s.workers);
    if active(s.workers) > 0 {
        match s.consumer {
            Some(c) => {
                assert(s.has_worker(c) && s.worker_can_step(c));
            },
            None => {
                let w = choose|w: int|
                    0 <= w < s.workers.len() && !((#[trigger] s.workers[w]).state is Terminated);
                assert(s.has_worker(w) && s.worker_can_step(w));
            },
        }
    }
}

/// When no worker can take a step, the work is done: the queue is empty and
/// no job is being run. If shutdown has begun, every worker has terminated.
pub proof fn law_rest_means_done<J>(s: PoolModel<J>)
    requires
        s.inv(),
        forall|w: int| s.has_worker(w) ==> !#[trigger] s.worker_can_step(w),
    ensures
        s.queue.len() == 0,
        forall|w: int| 0 <= w < s.workers.len() ==> !((#[trigger] s.workers[w]).state is Running),
        !s.accepting ==> active(s.workers) == 0,
{
    assert forall|w: int| 0 <= w < s.workers.len() implies !((
    #[trigger] s.workers[w]).state is Running) by {
        assert(!s.worker_can_step(w));
    }
    if s.queue.len() > 0 {
        lemma_active_bound(s.workers);
        if active(s.workers) > 0 {
            law_never_stuck(s);
        }
    }
}

} // verus!
