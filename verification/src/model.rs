//! The pool as a state machine over mathematical values.
//!
//! A pool is a row of workers, a queue of messages, a flag that tells whether
//! jobs are still accepted, and the worker, if any, that is inside the
//! exclusive region around the receiving end. Each operation of the pool is a
//! transition here; the executable pool in [`crate::pool`] is proved to follow
//! these transitions step by step.

use crate::message::{JobOutcome, Message};
use vstd::prelude::*;

verus! {

/// Where a worker stands in its loop.
#[derive(Clone, Copy, Debug, PartialEq, Eq, Structural)]
pub enum WorkerState {
    /// Between messages, outside the exclusive region.
    Idle,
    /// Inside the exclusive region, waiting for the next message.
    Dispatching,
    /// Running a job.
    Running,
    /// Out of the loop for good.
    Terminated,
}

/// One worker, as the model sees it.
pub struct WorkerModel {
    /// The worker's ordinal, its place in the row.
    pub id: nat,
    pub state: WorkerState,
    /// Whether the worker's thread handle has been used up by a join.
    pub joined: bool,
    /// Faults caught so far; the count stops at `u64::MAX`.
    pub faults: u64,
}

/// The whole pool, as the model sees it.
#[verifier::ext_equal]
pub struct PoolModel<J> {
    pub workers: Seq<WorkerModel>,
    pub queue: Seq<Message<J>>,
    /// True until shutdown begins.
    pub accepting: bool,
    /// The worker inside the exclusive region, if there is one.
    pub consumer: Option<int>,
}

/// The number of workers in `workers` that have not terminated.
pub open spec fn active(workers: Seq<WorkerModel>) -> nat
    decreases workers.len(),
{
    if workers.len() == 0 {
        0
    } else {
        active(workers.drop_last()) + if workers.last().state is Terminated {
            0nat
        } else {
            1nat
        }
    }
}

/// The jobs among `queue`, in queue order.
pub open spec fn jobs_of<J>(queue: Seq<Message<J>>) -> Seq<J>
    decreases queue.len(),
{
    if queue.len() == 0 {
        seq![]
    } else {
        match queue.last() {
            Message::NewJob(job) => jobs_of(queue.drop_last()).push(job),
            Message::Terminate => jobs_of(queue.drop_last()),
        }
    }
}

/// The number of orders to stop among `queue`.
pub open spec fn stop_orders<J>(queue: Seq<Message<J>>) -> nat
    decreases queue.len(),
{
    if queue.len() == 0 {
        0
    } else {
        stop_orders(queue.drop_last()) + if queue.last() is Terminate {
            1nat
        } else {
            0nat
        }
    }
}

/// The number of workers in `workers` that are running a job.
pub open spec fn running(workers: Seq<WorkerModel>) -> nat
    decreases workers.len(),
{
    if workers.len() == 0 {
        0
    } else {
        running(workers.drop_last()) + if workers.last().state is Running {
            1nat
        } else {
            0nat
        }
    }
}

impl WorkerModel {
    /// A worker right after its thread was spawned.
    pub open spec fn fresh(id: nat) -> WorkerModel {
        WorkerModel { id, state: WorkerState::Idle, joined: false, faults: 0 }
    }

    pub open spec fn with_state(self, state: WorkerState) -> WorkerModel {
        WorkerModel { state, ..self }
    }

    /// The worker after the job it ran ended with `outcome`: idle again
    /// either way, with one more fault on record if the job faulted.
    pub open spec fn after_job(self, outcome: JobOutcome) -> WorkerModel {
        WorkerModel {
            state: WorkerState::Idle,
            faults: if outcome == JobOutcome::Faulted && self.faults < u64::MAX {
                (self.faults + 1) as u64
            } else {
                self.faults
            },
            ..self
        }
    }
}

impl<J> PoolModel<J> {
    /// A new pool of `size` workers: all idle, nothing queued.
    pub open spec fn init(size: nat) -> PoolModel<J> {
        PoolModel {
            workers: Seq::new(size, |i: int| WorkerModel::fresh(i as nat)),
            queue: Seq::empty(),
            accepting: true,
            consumer: None,
        }
    }

    pub open spec fn has_worker(self, w: int) -> bool {
        0 <= w < self.workers.len()
    }

    /// The stop orders that the queue still holds for the workers: none
    /// before shutdown, one for each worker still in its loop after it.
    pub open spec fn owed(self) -> nat {
        if self.accepting {
            0
        } else {
            active(self.workers)
        }
    }

    /// Every worker has been joined: shutdown is complete.
    pub open spec fn all_joined(self) -> bool {
        forall|w: int| 0 <= w < self.workers.len() ==> (#[trigger] self.workers[w]).joined
    }

    // Transitions. Each is the identity where it is not enabled.

    /// A job is submitted: it joins the back of the queue while the pool
    /// accepts jobs.
    pub open spec fn submit(self, job: J) -> PoolModel<J> {
        if self.accepting {
            PoolModel { queue: self.queue.push(Message::NewJob(job)), ..self }
        } else {
            self
        }
    }

    /// Worker `w` may enter the exclusive region: it is idle and the region
    /// is free.
    pub open spec fn can_acquire(self, w: int) -> bool {
        self.has_worker(w) && self.workers[w].state is Idle && self.consumer is None
    }

    /// Worker `w` enters the exclusive region.
    pub open spec fn acquire(self, w: int) -> PoolModel<J> {
        if self.can_acquire(w) {
            PoolModel {
                workers: self.workers.update(
                    w,
                    self.workers[w].with_state(WorkerState::Dispatching),
                ),
                consumer: Some(w),
                ..self
            }
        } else {
            self
        }
    }

    /// Worker `w` may take a message: it is inside the exclusive region and
    /// the queue is not empty.
    pub open spec fn can_receive(self, w: int) -> bool {
        self.has_worker(w) && self.consumer == Some(w) && self.queue.len() > 0
    }

    /// Worker `w` takes the message at the front of the queue and leaves the
    /// exclusive region, to run the job or to terminate.
    pub open spec fn receive(self, w: int) -> PoolModel<J> {
        if self.can_receive(w) {
            PoolModel {
                workers: self.workers.update(
                    w,
                    self.workers[w].with_state(
                        if self.queue[0] is NewJob {
                            WorkerState::Running
                        } else {
                            WorkerState::Terminated
                        },
                    ),
                ),
                queue: self.queue.drop_first(),
                consumer: None,
                ..self
            }
        } else {
            self
        }
    }

    /// Worker `w` is running a job.
    pub open spec fn can_finish(self, w: int) -> bool {
        self.has_worker(w) && self.workers[w].state is Running
    }

    /// The job that worker `w` ran has ended with `outcome`.
    pub open spec fn finish(self, w: int, outcome: JobOutcome) -> PoolModel<J> {
        if self.can_finish(w) {
            PoolModel { workers: self.workers.update(w, self.workers[w].after_job(outcome)), ..self }
        } else {
            self
        }
    }

    /// Shutdown begins: one stop order for each worker joins the back of the
    /// queue, and the pool accepts nothing more.
    pub open spec fn shutdown(self) -> PoolModel<J> {
        if self.accepting {
            PoolModel {
                queue: self.queue + Seq::new(self.workers.len(), |i: int| Message::Terminate),
                accepting: false,
                ..self
            }
        } else {
            self
        }
    }

    /// Worker `w` can be joined: it has terminated and its handle is unused.
    pub open spec fn can_join(self, w: int) -> bool {
        self.has_worker(w) && self.workers[w].state is Terminated && !self.workers[w].joined
    }

    /// Worker `w` is joined, which uses up its handle.
    pub open spec fn join(self, w: int) -> PoolModel<J> {
        if self.can_join(w) {
            PoolModel {
                workers: self.workers.update(w, WorkerModel { joined: true, ..self.workers[w] }),
                ..self
            }
        } else {
            self
        }
    }

    // The invariant.

    /// Each worker's ordinal is its place in the row.
    pub open spec fn ids_in_order(self) -> bool {
        forall|i: int| 0 <= i < self.workers.len() ==> (#[trigger] self.workers[i]).id == i
    }

    /// The worker inside the exclusive region is the one that is
    /// dispatching, and no other worker is: two workers never dequeue at the
    /// same time.
    pub open spec fn exclusive(self) -> bool {
        &&& self.consumer matches Some(c) ==> self.has_worker(c)
        &&& forall|i: int|
            0 <= i < self.workers.len() ==> ((#[trigger] self.workers[i]).state is Dispatching
                <==> self.consumer == Some(i))
    }

    /// A handle is used up only after its worker has terminated.
    pub open spec fn joined_after_exit(self) -> bool {
        forall|i: int|
            0 <= i < self.workers.len() ==> ((#[trigger] self.workers[i]).joined
                ==> self.workers[i].state is Terminated)
    }

    /// The queue is a run of jobs followed by exactly the stop orders owed:
    /// before shutdown it holds jobs only and every worker is in its loop;
    /// after, it ends in one stop order for each worker still in its loop,
    /// and once a worker has terminated no job is left.
    pub open spec fn stop_orders_match(self) -> bool {
        &&& self.accepting ==> active(self.workers) == self.workers.len()
        &&& self.owed() <= self.queue.len()
        &&& forall|k: int|
            0 <= k < self.queue.len() ==> ((#[trigger] self.queue[k]) is Terminate <==> k
                >= self.queue.len() - self.owed())
        &&& active(self.workers) < self.workers.len() ==> self.queue.len() == self.owed()
    }

    /// What holds of a pool at all times.
    pub open spec fn inv(self) -> bool {
        &&& self.workers.len() > 0
        &&& self.ids_in_order()
        &&& self.exclusive()
        &&& self.joined_after_exit()
        &&& self.stop_orders_match()
    }
}

} // verus!
