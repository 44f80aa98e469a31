//! The channel between the pool and its workers: an unbounded queue that
//! delivers messages in the order they were sent, with one exclusive region
//! around its receiving end.

use crate::message::{Message, PoolError};
use std::collections::VecDeque;
use vstd::prelude::*;

verus! {

/// The channel. Its view is the queue of messages not yet received, oldest
/// first.
pub struct Channel<J> {
    queue: VecDeque<Message<J>>,
    open: bool,
    consumer: Option<usize>,
}

impl<J> View for Channel<J> {
    type V = Seq<Message<J>>;

    closed spec fn view(&self) -> Seq<Message<J>> {
        self.queue@
    }
}

impl<J> Channel<J> {
    /// Whether the sending side is still in use.
    pub closed spec fn accepts(&self) -> bool {
        self.open
    }

    /// The worker inside the exclusive region, if there is one.
    pub closed spec fn consumer(&self) -> Option<int> {
        match self.consumer {
            Some(id) => Some(id as int),
            None => None,
        }
    }

    /// An open channel with nothing in it and nobody at its receiving end.
    pub fn new() -> (channel: Channel<J>)
        ensures
            channel@ == Seq::<Message<J>>::empty(),
            channel.accepts(),
            channel.consumer() is None,
    {
        Channel { queue: VecDeque::new(), open: true, consumer: None }
    }

    /// Whether the sending side is still in use.
    pub fn is_open(&self) -> (open: bool)
        ensures
            open == self.accepts(),
    {
        self.open
    }

    /// The number of messages not yet received.
    pub fn len(&self) -> (len: usize)
        ensures
            len == self@.len(),
    {
        self.queue.len()
    }

    /// Whether no message waits to be received.
    pub fn is_empty(&self) -> (empty: bool)
        ensures
            empty == (self@.len() == 0),
    {
        self.queue.len() == 0
    }

    /// The worker inside the exclusive region, if there is one.
    pub fn holder(&self) -> (holder: Option<usize>)
        ensures
            match holder {
                Some(id) => self.consumer() == Some(id as int),
                None => self.consumer() is None,
            },
    {
        self.consumer
    }

    /// Puts `message` at the back of the queue. This never waits. It fails
    /// with `ChannelClosed`, and changes nothing, exactly when the sending
    /// side has been retired.
    pub fn send(&mut self, message: Message<J>) -> (sent: Result<(), PoolError>)
        ensures
            final(self).accepts() == old(self).accepts(),
            final(self).consumer() == old(self).consumer(),
            match sent {
                Ok(()) => old(self).accepts() && final(self)@ == old(self)@.push(message),
                Err(error) => !old(self).accepts() && error == PoolError::ChannelClosed
                    && final(self)@ == old(self)@,
            },
    {
        if self.open {
            self.queue.push_back(message);
            Ok(())
        } else {
            Err(PoolError::ChannelClosed)
        }
    }

    /// Retires the sending side. What is queued can still be received.
    pub fn close(&mut self)
        ensures
            !final(self).accepts(),
            final(self)@ == old(self)@,
            final(self).consumer() == old(self).consumer(),
    {
        self.open = false;
    }

    /// Worker `id` asks for the exclusive region and gets it exactly when
    /// nobody is inside.
    pub fn acquire(&mut self, id: usize) -> (entered: bool)
        ensures
            entered == old(self).consumer() is None,
            final(self).consumer() == if entered {
                Some(id as int)
            } else {
                old(self).consumer()
            },
            final(self)@ == old(self)@,
            final(self).accepts() == old(self).accepts(),
    {
        match self.consumer {
            None => {
                self.consumer = Some(id);
                true
            },
            Some(_) => false,
        }
    }

    /// Worker `id`, from inside the exclusive region, takes the oldest
    /// message and leaves the region. Where a real receiver would wait, on an
    /// empty queue, this returns `None` and the worker stays inside; a worker
    /// that is not inside gets `None` too.
    pub fn receive(&mut self, id: usize) -> (received: Option<Message<J>>)
        ensures
            final(self).accepts() == old(self).accepts(),
            match received {
                Some(message) => {
                    &&& old(self).consumer() == Some(id as int)
                    &&& old(self)@.len() > 0
                    &&& message == old(self)@[0]
                    &&& final(self)@ == old(self)@.drop_first()
                    &&& final(self).consumer() is None
                },
                None => {
                    &&& !(old(self).consumer() == Some(id as int) && old(self)@.len() > 0)
                    &&& final(self)@ == old(self)@
                    &&& final(self).consumer() == old(self).consumer()
                },
            },
    {
        let inside = match self.consumer {
            Some(holder) => holder == id,
            None => false,
        };
        if !inside {
            return None;
        }
        let received = self.queue.pop_front();
        if received.is_some() {
            self.consumer = None;
        }
        received
    }
}

} // verus!
