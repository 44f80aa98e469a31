//! What travels through the pool's channel, and what comes of it.

use vstd::prelude::*;

verus! {

/// The unit carried by the channel: a job to run, or the order to stop.
#[derive(Debug, PartialEq, Eq)]
pub enum Message<J> {
    NewJob(J),
    Terminate,
}

/// What a worker does with the message it received.
#[derive(Debug, PartialEq, Eq)]
pub enum WorkerAction<J> {
    /// Run the job on the worker's own thread.
    Run(J),
    /// Leave the loop; the worker's thread ends.
    Exit,
}

/// How a job ended.
#[derive(Clone, Copy, Debug, PartialEq, Eq, Structural)]
pub enum JobOutcome {
    /// The job ran to its end.
    Completed,
    /// The job raised a fault, which the worker caught.
    Faulted,
}

/// Why the pool turned a request down.
#[derive(Clone, Copy, Debug, PartialEq, Eq, Structural)]
pub enum PoolError {
    /// A pool was asked for with no workers.
    InvalidPoolSize,
    /// The sending side of the channel has been retired.
    ChannelClosed,
}

impl<J> Message<J> {
    /// The action a worker takes on this message.
    pub open spec fn spec_action(self) -> WorkerAction<J> {
        match self {
            Message::NewJob(job) => WorkerAction::Run(job),
            Message::Terminate => WorkerAction::Exit,
        }
    }

    /// Turns the message into the action a worker takes on it.
    pub fn into_action(self) -> (action: WorkerAction<J>)
        ensures
            action == self.spec_action(),
    {
        match self {
            Message::NewJob(job) => WorkerAction::Run(job),
            Message::Terminate => WorkerAction::Exit,
        }
    }
}

} // verus!
