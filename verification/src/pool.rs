//! The pool: a fixed row of workers fed from one channel.
//!
//! A `ThreadPool` holds everything the pool decides on. Whoever drives it
//! performs the calls one at a time, under one lock, and does what they
//! return: a thread that waits runs the job it was handed outside the lock
//! and reports back how the job ended.

use crate::channel::Channel;
use crate::message::{JobOutcome, Message, PoolError, WorkerAction};
use crate::model::{active, PoolModel, WorkerModel, WorkerState};
use crate::safety::{
    lemma_acquire_inv, lemma_finish_inv, lemma_init_inv, lemma_join_inv, lemma_receive_inv,
    lemma_shutdown_inv, lemma_submit_inv,
};
use crate::worker::Worker;
use vstd::prelude::*;

verus! {

/// A pool of workers and the channel that feeds them, carrying jobs of type
/// `J`.
pub struct ThreadPool<J> {
    workers: Vec<Worker>,
    channel: Channel<J>,
}

impl<J> View for ThreadPool<J> {
    type V = PoolModel<J>;

    closed spec fn view(&self) -> PoolModel<J> {
        PoolModel {
            workers: Seq::new(self.workers@.len(), |i: int| self.workers@[i]@),
            queue: self.channel@,
            accepting: self.channel.accepts(),
            consumer: self.channel.consumer(),
        }
    }
}

impl<J> ThreadPool<J> {
    /// A pool is well formed when its model satisfies the invariant.
    pub open spec fn wf(&self) -> bool {
        self@.inv()
    }

    /// Makes a pool of `size` workers, all idle, with an empty channel.
    /// Fails with `InvalidPoolSize` exactly when `size` is zero.
    pub fn new(size: usize) -> (made: Result<ThreadPool<J>, PoolError>)
        ensures
            match made {
                Ok(pool) => size > 0 && pool.wf() && pool@ == PoolModel::<J>::init(size as nat),
                Err(error) => size == 0 && error == PoolError::InvalidPoolSize,
            },
    {
        if size == 0 {
            return Err(PoolError::InvalidPoolSize);
        }
        let mut workers: Vec<Worker> = Vec::new();
        let mut id: usize = 0;
        while id < size
            invariant
                id <= size,
                workers@.len() == id,
                forall|k: int|
                    0 <= k < id ==> (#[trigger] workers@[k])@ == WorkerModel::fresh(k as nat),
            decreases size - id,
        {
            workers.push(Worker::new(id));
            id = id + 1;
        }
        let pool = ThreadPool { workers, channel: Channel::new() };
        proof {
            assert(pool@ == PoolModel::<J>::init(size as nat));
            lemma_init_inv::<J>(size as nat);
        }
        Ok(pool)
    }

    /// The number of workers, fixed when the pool was made.
    pub fn size(&self) -> (size: usize)
        ensures
            size == self@.workers.len(),
    {
        self.workers.len()
    }

    /// The number of messages waiting in the channel.
    pub fn pending(&self) -> (pending: usize)
        ensures
            pending == self@.queue.len(),
    {
        self.channel.len()
    }

    /// Whether the pool still accepts jobs: true until shutdown begins.
    pub fn is_accepting(&self) -> (accepting: bool)
        ensures
            accepting == self@.accepting,
    {
        self.channel.is_open()
    }

    /// Worker `id` as it stands, or `None` when the pool has no such worker.
    pub fn worker(&self, id: usize) -> (worker: Option<Worker>)
        ensures
            match worker {
                Some(found) => self@.has_worker(id as int) && found@ == self@.workers[id as int],
                None => !self@.has_worker(id as int),
            },
    {
        if id < self.workers.len() {
            Some(self.workers[id])
        } else {
            None
        }
    }

    /// The number of workers still in their loops.
    pub fn live_workers(&self) -> (live: usize)
        ensures
            live == active(self@.workers),
    {
        let mut live: usize = 0;
        let mut i: usize = 0;
        while i < self.workers.len()
            invariant
                i <= self.workers@.len(),
                live <= i,
                live == active(self@.workers.subrange(0, i as int)),
            decreases self.workers.len() - i,
        {
            proof {
                let upto = self@.workers.subrange(0, i + 1);
                assert(upto.drop_last() =~= self@.workers.subrange(0, i as int));
            }
            if self.workers[i].is_live() {
                live = live + 1;
            }
            i = i + 1;
        }
        proof {
            assert(self@.workers.subrange(0, i as int) =~= self@.workers);
        }
        live
    }

    /// Whether shutdown is complete: every worker has been joined.
    pub fn is_shut_down(&self) -> (done: bool)
        ensures
            done == self@.all_joined(),
    {
        let mut i: usize = 0;
        while i < self.workers.len()
            invariant
                i <= self.workers@.len(),
                forall|w: int| 0 <= w < i ==> (#[trigger] self@.workers[w]).joined,
            decreases self.workers.len() - i,
        {
            if !self.workers[i].is_joined() {
                assert(!self@.workers[i as int].joined);
                return false;
            }
            i = i + 1;
        }
        true
    }

    /// Submits `job`: it joins the back of the queue, to be run by one
    /// worker. This never waits. It fails with `ChannelClosed`, and changes
    /// nothing, exactly when shutdown has begun.
    pub fn execute(&mut self, job: J) -> (submitted: Result<(), PoolError>)
        requires
            old(self).wf(),
        ensures
            final(self).wf(),
            final(self)@ == old(self)@.submit(job),
            match submitted {
                Ok(()) => old(self)@.accepting,
                Err(error) => !old(self)@.accepting && error == PoolError::ChannelClosed,
            },
    {
        proof {
            lemma_submit_inv(self@, job);
        }
        self.channel.send(Message::NewJob(job))
    }

    /// Worker `id` asks to enter the exclusive region around the receiving
    /// end. It enters, and the call returns true, exactly when the worker is
    /// idle and nobody is inside; otherwise nothing changes.
    pub fn acquire(&mut self, id: usize) -> (entered: bool)
        requires
            old(self).wf(),
        ensures
            final(self).wf(),
            entered == old(self)@.can_acquire(id as int),
            final(self)@ == old(self)@.acquire(id as int),
    {
        proof {
            lemma_acquire_inv(self@, id as int);
        }
        if id >= self.workers.len() {
            return false;
        }
        let idle = match self.workers[id].state() {
            WorkerState::Idle => true,
            _ => false,
        };
        if !idle || self.channel.holder().is_some() {
            return false;
        }
        let entered = self.channel.acquire(id);
        let mut worker = self.workers[id];
        worker.enter();
        self.workers[id] = worker;
        proof {
            assert(self@.workers =~= old(self)@.acquire(id as int).workers);
        }
        entered
    }

    /// Worker `id`, from inside the exclusive region, takes the oldest
    /// message, leaves the region and is told what to do: run the job, or
    /// exit. Where a real receiver would wait, on an empty queue, the call
    /// returns `None` and nothing changes; so it does for a worker that is
    /// not inside the region.
    pub fn receive(&mut self, id: usize) -> (action: Option<WorkerAction<J>>)
        requires
            old(self).wf(),
        ensures
            final(self).wf(),
            final(self)@ == old(self)@.receive(id as int),
            match action {
                Some(action) => old(self)@.can_receive(id as int) && action == old(
                    self,
                )@.queue[0].spec_action(),
                None => !old(self)@.can_receive(id as int),
            },
    {
        proof {
            lemma_receive_inv(self@, id as int);
        }
        match self.channel.receive(id) {
            Some(message) => {
                let mut worker = self.workers[id];
                let action = worker.dispatch(message);
                self.workers[id] = worker;
                proof {
                    assert(self@.workers =~= old(self)@.receive(id as int).workers);
                }
                Some(action)
            },
            None => None,
        }
    }

    /// Worker `id` reports that the job it ran has ended. The worker is idle
    /// again whether the job completed or faulted. Returns false, and
    /// changes nothing, when worker `id` was not running a job.
    pub fn finish(&mut self, id: usize, outcome: JobOutcome) -> (finished: bool)
        requires
            old(self).wf(),
        ensures
            final(self).wf(),
            finished == old(self)@.can_finish(id as int),
            final(self)@ == old(self)@.finish(id as int, outcome),
    {
        proof {
            lemma_finish_inv(self@, id as int, outcome);
        }
        if id >= self.workers.len() {
            return false;
        }
        let running = match self.workers[id].state() {
            WorkerState::Running => true,
            _ => false,
        };
        if !running {
            return false;
        }
        let mut worker = self.workers[id];
        worker.finish(outcome);
        self.workers[id] = worker;
        proof {
            assert(self@.workers =~= old(self)@.finish(id as int, outcome).workers);
        }
        true
    }

    /// Begins shutdown: queues one order to stop for each worker, behind the
    /// jobs already queued, and retires the sending side. Fails with
    /// `ChannelClosed`, and changes nothing, exactly when shutdown had begun
    /// before.
    pub fn shutdown(&mut self) -> (begun: Result<(), PoolError>)
        requires
            old(self).wf(),
        ensures
            final(self).wf(),
            final(self)@ == old(self)@.shutdown(),
            match begun {
                Ok(()) => old(self)@.accepting,
                Err(error) => !old(self)@.accepting && error == PoolError::ChannelClosed,
            },
    {
        proof {
            lemma_shutdown_inv(self@);
        }
        if !self.channel.is_open() {
            return Err(PoolError::ChannelClosed);
        }
        let size = self.workers.len();
        let mut sent: usize = 0;
        while sent < size
            invariant
                sent <= size,
                size == self.workers@.len(),
                self.workers == old(self).workers,
                self.channel.accepts(),
                self.channel.consumer() == old(self).channel.consumer(),
                self.channel@ == old(self).channel@ + Seq::new(
                    sent as nat,
                    |i: int| Message::<J>::Terminate,
                ),
            decreases size - sent,
        {
            let _ = self.channel.send(Message::Terminate);
            sent = sent + 1;
        }
        self.channel.close();
        Ok(())
    }

    /// Uses up the handle of worker `id`, which the caller then joins. This
    /// succeeds, and the call returns true, exactly when the worker has
    /// terminated and its handle is unused; otherwise nothing changes.
    pub fn join(&mut self, id: usize) -> (joined: bool)
        requires
            old(self).wf(),
        ensures
            final(self).wf(),
            joined == old(self)@.can_join(id as int),
            final(self)@ == old(self)@.join(id as int),
    {
        proof {
            lemma_join_inv(self@, id as int);
        }
        if id >= self.workers.len() {
            return false;
        }
        let mut worker = self.workers[id];
        let joined = worker.join();
        self.workers[id] = worker;
        proof {
            assert(self@.workers =~= old(self)@.join(id as int).workers);
        }
        joined
    }
}

} // verus!
