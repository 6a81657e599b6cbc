//! One worker of the pool: the decisions of its loop.
//!
//! A worker takes one item from the queue at a time. A job makes it busy until
//! the job has returned; the termination token stops it for good. The thread
//! that carries the worker, and the run of the job itself, are the embedding
//! program's.

use crate::queue::Message;
use vstd::prelude::*;

verus! {

/// Where a worker stands in its loop. `Idle` and `Busy` together are the
/// running worker; `Stopped` is final.
#[derive(Clone, Copy, Debug, PartialEq, Eq, Structural)]
pub enum WorkerState {
    /// Waiting for the next item of the queue.
    Idle,
    /// Running the job that it received last.
    Busy,
    /// Out of its loop, after the termination token.
    Stopped,
}

/// How the run of a job ended.
#[derive(Clone, Copy, Debug, PartialEq, Eq, Structural)]
pub enum JobOutcome {
    /// The job returned.
    Completed,
    /// The job raised a fault, which stayed inside this one run.
    Faulted,
}

/// What a worker has to do next.
pub enum Directive<J> {
    /// Run this job to its end, then report how it ended.
    Run(J),
    /// Nothing to do yet: wait for the next send and ask again.
    Wait,
    /// Leave the loop and end the thread.
    Exit,
}

/// A worker, known by its index in the pool.
#[derive(Clone, Copy, Debug)]
pub struct Worker {
    id: usize,
    state: WorkerState,
}

impl Worker {
    /// The worker's index in its pool.
    pub closed spec fn spec_id(&self) -> usize {
        self.id
    }

    /// Where the worker stands in its loop.
    pub closed spec fn spec_state(&self) -> WorkerState {
        self.state
    }

    /// A worker that runs and waits for its first item.
    pub fn new(id: usize) -> (worker: Worker)
        ensures
            worker.id() == id,
            worker.state() == WorkerState::Idle,
    {
        Worker { id, state: WorkerState::Idle }
    }

    /// The worker's index in its pool.
    #[verifier::when_used_as_spec(spec_id)]
    pub fn id(&self) -> (id: usize)
        ensures
            id == self.spec_id(),
    {
        self.id
    }

    /// Where the worker stands in its loop.
    #[verifier::when_used_as_spec(spec_state)]
    pub fn state(&self) -> (state: WorkerState)
        ensures
            state == self.spec_state(),
    {
        self.state
    }

    /// Whether the worker is still in its loop, waiting or busy.
    pub fn is_running(&self) -> (running: bool)
        ensures
            running <==> self.state() != WorkerState::Stopped,
    {
        match self.state {
            WorkerState::Stopped => false,
            _ => true,
        }
    }

    /// The step of the loop on the item that the queue delivered.
    ///
    /// A job makes the worker busy and is handed on to be run; the termination
    /// token stops the worker. Only an idle worker takes an item: a busy one
    /// runs one job at a time, and a stopped one never comes back.
    pub fn take<J>(&mut self, message: Message<J>) -> (directive: Directive<J>)
        requires
            old(self).state() == WorkerState::Idle,
        ensures
            final(self).id() == old(self).id(),
            match message {
                Message::Job(job) => directive == Directive::Run(job) && final(self).state()
                    == WorkerState::Busy,
                Message::Terminate => directive == Directive::<J>::Exit && final(self).state()
                    == WorkerState::Stopped,
            },
    {
        match message {
            Message::Job(job) => {
                self.state = WorkerState::Busy;
                Directive::Run(job)
            },
            Message::Terminate => {
                self.state = WorkerState::Stopped;
                Directive::Exit
            },
        }
    }

    /// The job that the worker was running has ended: the worker is idle
    /// again, whether the job returned or faulted. Answers whether there was
    /// such a job; a worker that was not busy stays as it is.
    pub fn finish(&mut self) -> (was_busy: bool)
        ensures
            final(self).id() == old(self).id(),
            was_busy <==> old(self).state() == WorkerState::Busy,
            was_busy ==> final(self).state() == WorkerState::Idle,
            !was_busy ==> final(self).state() == old(self).state(),
    {
        match self.state {
            WorkerState::Busy => {
                self.state = WorkerState::Idle;
                true
            },
            _ => false,
        }
    }
}

} // verus!
