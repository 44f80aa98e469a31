//! Runs of the pool: the events that drive it, the state they lead to, and
//! the record of the jobs that went in and came out along the way.

use crate::message::{JobOutcome, Message};
use crate::model::PoolModel;
use vstd::prelude::*;

verus! {

/// One call on the pool, by its owner or by one of its workers.
pub enum Event<J> {
    /// The owner submits a job.
    Submit(J),
    /// A worker asks for the exclusive region.
    Acquire(int),
    /// A worker asks for the next message.
    Receive(int),
    /// A worker reports how its job ended.
    Finish(int, JobOutcome),
    /// The owner begins shutdown.
    Shutdown,
    /// The owner joins a worker.
    Join(int),
}

/// A job on its way out of the queue, with the worker that received it.
pub struct Dispatch<J> {
    pub worker: int,
    pub job: J,
}

/// The jobs of `dispatches`, in order.
pub open spec fn jobs<J>(dispatches: Seq<Dispatch<J>>) -> Seq<J> {
    Seq::new(dispatches.len(), |i: int| dispatches[i].job)
}

impl<J> PoolModel<J> {
    /// The pool after `event`.
    pub open spec fn step(self, event: Event<J>) -> PoolModel<J> {
        match event {
            Event::Submit(job) => self.submit(job),
            Event::Acquire(w) => self.acquire(w),
            Event::Receive(w) => self.receive(w),
            Event::Finish(w, outcome) => self.finish(w, outcome),
            Event::Shutdown => self.shutdown(),
            Event::Join(w) => self.join(w),
        }
    }

    /// The pool after `events`, in order.
    pub open spec fn run(self, events: Seq<Event<J>>) -> PoolModel<J>
        decreases events.len(),
    {
        if events.len() == 0 {
            self
        } else {
            self.run(events.drop_last()).step(events.last())
        }
    }

    /// The jobs that the pool accepted in the course of `events`, in the
    /// order of their submission.
    pub open spec fn submitted(self, events: Seq<Event<J>>) -> Seq<J>
        decreases events.len(),
    {
        if events.len() == 0 {
            seq![]
        } else {
            let earlier = self.submitted(events.drop_last());
            match events.last() {
                Event::Submit(job) => if self.run(events.drop_last()).accepting {
                    earlier.push(job)
                } else {
                    earlier
                },
                _ => earlier,
            }
        }
    }

    /// The jobs that workers received in the course of `events`, each with
    /// its worker, in the order in which they left the queue.
    pub open spec fn dispatched(self, events: Seq<Event<J>>) -> Seq<Dispatch<J>>
        decreases events.len(),
    {
        if events.len() == 0 {
            seq![]
        } else {
            let earlier = self.dispatched(events.drop_last());
            let before = self.run(events.drop_last());
            match events.last() {
                Event::Receive(w) => if before.can_receive(w) {
                    match before.queue[0] {
                        Message::NewJob(job) => earlier.push(Dispatch { worker: w, job }),
                        Message::Terminate => earlier,
                    }
                } else {
                    earlier
                },
                _ => earlier,
            }
        }
    }
}

} // verus!
