//! One worker of the pool: its place in the loop and the use of its handle.

use crate::message::{JobOutcome, Message, WorkerAction};
use crate::model::{WorkerModel, WorkerState};
use vstd::prelude::*;

verus! {

/// A worker: its ordinal, where it stands in its loop, whether the handle of
/// its thread has been used up, and how many faults it has caught.
#[derive(Clone, Copy, Debug)]
pub struct Worker {
    id: usize,
    state: WorkerState,
    joined: bool,
    faults: u64,
}

impl View for Worker {
    type V = WorkerModel;

    closed spec fn view(&self) -> WorkerModel {
        WorkerModel {
            id: self.id as nat,
            state: self.state,
            joined: self.joined,
            faults: self.faults,
        }
    }
}

impl Worker {
    /// The worker with ordinal `id`, as it is right after its thread was
    /// spawned: idle, with its handle unused.
    pub fn new(id: usize) -> (worker: Worker)
        ensures
            worker@ == WorkerModel::fresh(id as nat),
    {
        Worker { id, state: WorkerState::Idle, joined: false, faults: 0 }
    }

    /// The worker's ordinal.
    pub fn id(&self) -> (id: usize)
        ensures
            id == self@.id,
    {
        self.id
    }

    /// Where the worker stands in its loop.
    pub fn state(&self) -> (state: WorkerState)
        ensures
            state == self@.state,
    {
        self.state
    }

    /// Whether the worker is still in its loop.
    pub fn is_live(&self) -> (live: bool)
        ensures
            live == !(self@.state is Terminated),
    {
        match self.state {
            WorkerState::Terminated => false,
            _ => true,
        }
    }

    /// Whether the handle of the worker's thread has been used up.
    pub fn is_joined(&self) -> (joined: bool)
        ensures
            joined == self@.joined,
    {
        self.joined
    }

    /// The number of faults the worker has caught, up to `u64::MAX`.
    pub fn faults(&self) -> (faults: u64)
        ensures
            faults == self@.faults,
    {
        self.faults
    }

    /// The idle worker enters the exclusive region to wait for a message.
    pub fn enter(&mut self)
        requires
            old(self)@.state is Idle,
        ensures
            final(self)@ == old(self)@.with_state(WorkerState::Dispatching),
    {
        self.state = WorkerState::Dispatching;
    }

    /// The dispatching worker acts on the message it received: it goes on to
    /// run the job, or it terminates on the order to stop.
    pub fn dispatch<J>(&mut self, message: Message<J>) -> (action: WorkerAction<J>)
        requires
            old(self)@.state is Dispatching,
        ensures
            action == message.spec_action(),
            final(self)@ == old(self)@.with_state(
                if message is NewJob {
                    WorkerState::Running
                } else {
                    WorkerState::Terminated
                },
            ),
    {
        match message {
            Message::NewJob(job) => {
                self.state = WorkerState::Running;
                WorkerAction::Run(job)
            },
            Message::Terminate => {
                self.state = WorkerState::Terminated;
                WorkerAction::Exit
            },
        }
    }

    /// The running worker is done with its job and is idle again. A fault is
    /// put on record and changes nothing else.
    pub fn finish(&mut self, outcome: JobOutcome)
        requires
            old(self)@.state is Running,
        ensures
            final(self)@ == old(self)@.after_job(outcome),
    {
        self.state = WorkerState::Idle;
        match outcome {
            JobOutcome::Faulted => {
                if self.faults < u64::MAX {
                    self.faults = self.faults + 1;
                }
            },
            JobOutcome::Completed => {},
        }
    }

    /// Uses up the handle of a terminated worker. Returns whether it did:
    /// not while the worker is in its loop, and not a second time.
    pub fn join(&mut self) -> (joined: bool)
        ensures
            joined == (old(self)@.state is Terminated && !old(self)@.joined),
            final(self)@ == if joined {
                (WorkerModel { joined: true, ..old(self)@ })
            } else {
                old(self)@
            },
    {
        match self.state {
            WorkerState::Terminated => {
                if self.joined {
                    false
                } else {
                    self.joined = true;
                    true
                }
            },
            _ => false,
        }
    }
}

} // verus!
