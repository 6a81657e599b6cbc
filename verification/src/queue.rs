//! The job queue: one ordered channel between the submitters and the workers.
//!
//! The queue carries jobs and termination tokens in the order in which they
//! were sent. Each item leaves the queue exactly once, at the front, into the
//! hands of the one receiver that asked for it.

use crate::error::{PoolError, Rejected};
use std::collections::VecDeque;
use vstd::prelude::*;

verus! {

/// One item of the queue.
pub enum Message<J> {
    /// A unit of work, to be run once by the worker that receives it.
    Job(J),
    /// The termination token: the worker that receives it leaves its loop.
    Terminate,
}

/// A FIFO channel of [`Message`]s with a count of the receivers that still
/// read from it.
///
/// Its view is the sequence of items waiting in it, oldest first.
pub struct JobQueue<J> {
    items: VecDeque<Message<J>>,
    receivers: usize,
}

impl<J> View for JobQueue<J> {
    type V = Seq<Message<J>>;

    closed spec fn view(&self) -> Seq<Message<J>> {
        self.items@
    }
}

impl<J> JobQueue<J> {
    /// The number of receivers that have not left the queue.
    pub closed spec fn live_receivers(&self) -> nat {
        self.receivers as nat
    }

    /// An empty queue that `receivers` workers are going to read from.
    pub fn new(receivers: usize) -> (queue: Self)
        ensures
            queue@ == Seq::<Message<J>>::empty(),
            queue.live_receivers() == receivers,
    {
        JobQueue { items: VecDeque::new(), receivers }
    }

    /// Enqueues `job` behind everything already waiting, without blocking.
    ///
    /// With no receiver left the queue is closed: it stays as it was and the
    /// job comes back with [`PoolError::ChannelClosed`].
    pub fn send(&mut self, job: J) -> (res: Result<(), Rejected<J>>)
        ensures
            final(self).live_receivers() == old(self).live_receivers(),
            old(self).live_receivers() > 0 ==> {
                &&& res is Ok
                &&& final(self)@ == old(self)@.push(Message::Job(job))
            },
            old(self).live_receivers() == 0 ==> {
                &&& res is Err
                &&& res->Err_0 == (Rejected { reason: PoolError::ChannelClosed, job })
                &&& final(self)@ == old(self)@
            },
    {
        if self.receivers == 0 {
            return Err(Rejected { reason: PoolError::ChannelClosed, job });
        }
        self.items.push_back(Message::Job(job));
        Ok(())
    }

    /// Enqueues one termination token behind everything already waiting.
    ///
    /// With no receiver left nobody could take the token: the queue stays as
    /// it was and the call fails with [`PoolError::ChannelClosed`].
    pub fn send_termination(&mut self) -> (res: Result<(), PoolError>)
        ensures
            final(self).live_receivers() == old(self).live_receivers(),
            old(self).live_receivers() > 0 ==> {
                &&& res is Ok
                &&& final(self)@ == old(self)@.push(Message::Terminate)
            },
            old(self).live_receivers() == 0 ==> {
                &&& res == Err::<(), PoolError>(PoolError::ChannelClosed)
                &&& final(self)@ == old(self)@
            },
    {
        if self.receivers == 0 {
            return Err(PoolError::ChannelClosed);
        }
        self.items.push_back(Message::Terminate);
        Ok(())
    }

    /// Takes the oldest waiting item out of the queue.
    ///
    /// `None` means that nothing is waiting: a receiver then has to wait for
    /// the next send and ask again.
    pub fn receive(&mut self) -> (res: Option<Message<J>>)
        ensures
            final(self).live_receivers() == old(self).live_receivers(),
            old(self)@.len() == 0 ==> res is None && final(self)@ == old(self)@,
            old(self)@.len() > 0 ==> {
                &&& res == Some(old(self)@[0])
                &&& final(self)@ == old(self)@.skip(1)
            },
    {
        self.items.pop_front()
    }

    /// One receiver leaves the queue for good. The waiting items stay.
    pub fn disconnect(&mut self)
        ensures
            final(self)@ == old(self)@,
            old(self).live_receivers() > 0 ==> final(self).live_receivers() + 1 == old(
                self,
            ).live_receivers(),
            old(self).live_receivers() == 0 ==> final(self).live_receivers() == 0,
    {
        if self.receivers > 0 {
            self.receivers = self.receivers - 1;
        }
    }

    /// How many items are waiting.
    pub fn len(&self) -> (n: usize)
        ensures
            n == self@.len(),
    {
        self.items.len()
    }

    /// Whether nothing is waiting.
    pub fn is_empty(&self) -> (empty: bool)
        ensures
            empty <==> self@.len() == 0,
    {
        self.items.len() == 0
    }

    /// How many receivers still read from the queue.
    pub fn receivers(&self) -> (n: usize)
        ensures
            n == self.live_receivers(),
    {
        self.receivers
    }
}

} // verus!
