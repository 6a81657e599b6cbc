//! The pool as a mathematical state machine.
//!
//! A [`PoolModel`] holds everything that the rules of the pool speak of: the
//! phase of its life, the state of each worker, every job accepted so far in
//! the order of acceptance, and how far dispatch and completion have come. The
//! transitions below say what each operation of the pool does to it.

use crate::queue::Message;
use crate::worker::{Directive, JobOutcome, WorkerState};
use vstd::prelude::*;

verus! {

/// The phases of a pool's life. A pool only ever moves down this list.
#[derive(Clone, Copy, Debug, PartialEq, Eq, Structural)]
pub enum PoolPhase {
    /// Under construction: the workers are being created. No handle to a pool
    /// in this phase is ever given out.
    Initializing,
    /// All workers are alive and jobs are accepted.
    Running,
    /// Teardown has begun: no job is accepted any more, the workers finish
    /// what was accepted and stop one by one.
    Draining,
    /// Every worker has stopped.
    Stopped,
}

/// How many workers of `workers` are in `state`.
pub open spec fn count_state(workers: Seq<WorkerState>, state: WorkerState) -> nat
    decreases workers.len(),
{
    if workers.len() == 0 {
        0
    } else {
        count_state(workers.drop_last(), state) + if workers.last() == state {
            1nat
        } else {
            0nat
        }
    }
}

/// The state of a pool.
pub struct PoolModel<J> {
    pub phase: PoolPhase,
    /// The state of each worker, by index.
    pub workers: Seq<WorkerState>,
    /// Every job accepted so far, in the order of acceptance.
    pub accepted: Seq<J>,
    /// How many of the accepted jobs have been handed to a worker: always the
    /// first `dispatched` of them.
    pub dispatched: nat,
    /// How many of the dispatched jobs have ended, one way or the other.
    pub finished: nat,
    /// How many of the finished jobs ended in a fault.
    pub faulted: nat,
    /// How many termination tokens wait in the queue, behind all jobs.
    pub tokens: nat,
}

impl<J> PoolModel<J> {
    /// A pool fresh from construction: `size` idle workers and no job yet.
    pub open spec fn initial(size: nat) -> Self {
        PoolModel {
            phase: PoolPhase::Running,
            workers: Seq::new(size, |i: int| WorkerState::Idle),
            accepted: Seq::empty(),
            dispatched: 0,
            finished: 0,
            faulted: 0,
            tokens: 0,
        }
    }

    /// The accepted jobs that no worker has received yet, oldest first.
    pub open spec fn pending(self) -> Seq<J> {
        self.accepted.skip(self.dispatched as int)
    }

    /// What waits in the queue: the pending jobs in the order of acceptance,
    /// then the termination tokens.
    pub open spec fn queue(self) -> Seq<Message<J>> {
        Seq::new(
            (self.accepted.len() - self.dispatched + self.tokens) as nat,
            |i: int|
                if i < self.accepted.len() - self.dispatched {
                    Message::Job(self.accepted[self.dispatched + i])
                } else {
                    Message::Terminate
                },
        )
    }

    /// How many workers are running a job.
    pub open spec fn busy(self) -> nat {
        count_state(self.workers, WorkerState::Busy)
    }

    /// How many workers have not stopped.
    pub open spec fn live(self) -> nat {
        count_state(self.workers, WorkerState::Idle) + count_state(self.workers, WorkerState::Busy)
    }

    /// Nothing is left to do and nothing is being done: no job waits and no
    /// worker is busy.
    pub open spec fn quiescent(self) -> bool {
        self.dispatched == self.accepted.len() && self.busy() == 0
    }

    /// What holds of every pool that construction gave out, whatever happened
    /// to it since.
    pub open spec fn inv(self) -> bool {
        &&& self.phase != PoolPhase::Initializing
        &&& self.workers.len() >= 1
        &&& self.dispatched <= self.accepted.len()
        &&& self.finished + self.busy() == self.dispatched
        &&& self.faulted <= self.finished
        &&& self.phase == PoolPhase::Running ==> self.tokens == 0 && count_state(
            self.workers,
            WorkerState::Stopped,
        ) == 0
        &&& self.phase == PoolPhase::Draining ==> self.tokens >= 1 && self.tokens == self.live()
        &&& self.phase == PoolPhase::Stopped ==> self.tokens == 0 && self.live() == 0
            && self.dispatched == self.accepted.len()
    }

    /// Whether a submitted job is accepted.
    pub open spec fn accepts(self) -> bool {
        self.phase == PoolPhase::Running
    }

    /// The pool after the submission of `job`: accepted behind all earlier
    /// jobs while the pool runs; refused afterwards, which leaves the pool as
    /// it was.
    pub open spec fn submit(self, job: J) -> Self {
        if self.accepts() {
            PoolModel { accepted: self.accepted.push(job), ..self }
        } else {
            self
        }
    }

    /// The pool after a request for teardown: a running pool starts to drain,
    /// with one termination token for each worker; any other pool stays as it
    /// is.
    pub open spec fn begin_teardown(self) -> Self {
        if self.phase == PoolPhase::Running {
            PoolModel { phase: PoolPhase::Draining, tokens: self.workers.len(), ..self }
        } else {
            self
        }
    }

    /// Whether `worker` is one of the pool's workers and waits for an item.
    pub open spec fn is_idle(self, worker: int) -> bool {
        0 <= worker < self.workers.len() && self.workers[worker] == WorkerState::Idle
    }

    /// Whether `worker` is one of the pool's workers and runs a job.
    pub open spec fn is_busy(self, worker: int) -> bool {
        0 <= worker < self.workers.len() && self.workers[worker] == WorkerState::Busy
    }

    /// What `worker` is told when it asks for its next item.
    ///
    /// An idle worker gets the oldest pending job; with no job pending, a
    /// termination token if one waits; else it has to wait. A busy worker has
    /// to wait as well. A stopped worker, or an index that names no worker of
    /// this pool, is told to exit.
    pub open spec fn directive(self, worker: int) -> Directive<J> {
        if self.is_busy(worker) {
            Directive::Wait
        } else if !self.is_idle(worker) {
            Directive::Exit
        } else if self.dispatched < self.accepted.len() {
            Directive::Run(self.accepted[self.dispatched as int])
        } else if self.tokens > 0 {
            Directive::Exit
        } else {
            Directive::Wait
        }
    }

    /// The pool after `worker` asked for its next item.
    ///
    /// Only an idle worker changes anything: it becomes busy with the oldest
    /// pending job, or it takes a termination token and stops. With the last
    /// token gone the pool is stopped.
    pub open spec fn receive(self, worker: int) -> Self {
        if !self.is_idle(worker) {
            self
        } else if self.dispatched < self.accepted.len() {
            PoolModel {
                dispatched: self.dispatched + 1,
                workers: self.workers.update(worker, WorkerState::Busy),
                ..self
            }
        } else if self.tokens > 0 {
            PoolModel {
                tokens: (self.tokens - 1) as nat,
                workers: self.workers.update(worker, WorkerState::Stopped),
                phase: if self.tokens == 1 {
                    PoolPhase::Stopped
                } else {
                    self.phase
                },
                ..self
            }
        } else {
            self
        }
    }

    /// Whether `worker` can take a step that moves the pool on: it is busy
    /// and can report the end of its job, or it is idle and something waits
    /// for it in the queue.
    pub open spec fn can_move(self, worker: int) -> bool {
        self.is_busy(worker) || (self.is_idle(worker) && !(self.directive(worker) is Wait))
    }

    /// How many steps of workers the pool still needs to be done with all that
    /// it holds: two for each pending job (its receipt and its end), one for
    /// each job that is running, one for each termination token.
    pub open spec fn work_left(self) -> nat {
        (2 * (self.accepted.len() - self.dispatched) + self.busy() + self.tokens) as nat
    }

    /// The pool after `worker` reported the end of its job.
    ///
    /// A busy worker becomes idle again whatever the outcome; a fault is
    /// counted and changes nothing else. A report from a worker that is not
    /// busy changes nothing.
    pub open spec fn complete(self, worker: int, outcome: JobOutcome) -> Self {
        if self.is_busy(worker) {
            PoolModel {
                workers: self.workers.update(worker, WorkerState::Idle),
                finished: self.finished + 1,
                faulted: if outcome == JobOutcome::Faulted {
                    self.faulted + 1
                } else {
                    self.faulted
                },
                ..self
            }
        } else {
            self
        }
    }
}

/// A table without a worker in `state` counts none.
pub proof fn lemma_count_absent(workers: Seq<WorkerState>, state: WorkerState)
    requires
        forall|i: int| 0 <= i < workers.len() ==> workers[i] != state,
    ensures
        count_state(workers, state) == 0,
    decreases workers.len(),
{
    if workers.len() > 0 {
        lemma_count_absent(workers.drop_last(), state);
    }
}

/// A count of zero means that no worker is in that state.
pub proof fn lemma_count_zero(workers: Seq<WorkerState>, state: WorkerState)
    requires
        count_state(workers, state) == 0,
    ensures
        forall|i: int| 0 <= i < workers.len() ==> workers[i] != state,
    decreases workers.len(),
{
    if workers.len() > 0 {
        lemma_count_zero(workers.drop_last(), state);
        assert forall|i: int| 0 <= i < workers.len() implies workers[i] != state by {
            if i < workers.len() - 1 {
                assert(workers.drop_last()[i] == workers[i]);
            }
        }
    }
}

/// No count exceeds the size of the table, and a table in which every worker
/// is counted holds only workers in that state.
pub proof fn lemma_count_bounds(workers: Seq<WorkerState>, state: WorkerState)
    ensures
        count_state(workers, state) <= workers.len(),
        count_state(workers, state) == workers.len() ==> forall|i: int|
            0 <= i < workers.len() ==> workers[i] == state,
    decreases workers.len(),
{
    if workers.len() > 0 {
        lemma_count_bounds(workers.drop_last(), state);
        if count_state(workers, state) == workers.len() {
            assert forall|i: int| 0 <= i < workers.len() implies workers[i] == state by {
                if i < workers.len() - 1 {
                    assert(workers.drop_last()[i] == workers[i]);
                }
            }
        }
    }
}

/// A change of one worker's state moves one unit from the count of the old
/// state to the count of the new one.
pub proof fn lemma_count_update(
    workers: Seq<WorkerState>,
    worker: int,
    to: WorkerState,
    state: WorkerState,
)
    requires
        0 <= worker < workers.len(),
    ensures
        count_state(workers.update(worker, to), state) + (if workers[worker] == state {
            1nat
        } else {
            0nat
        }) == count_state(workers, state) + (if to == state {
            1nat
        } else {
            0nat
        }),
    decreases workers.len(),
{
    let updated = workers.update(worker, to);
    if worker == workers.len() - 1 {
        assert(updated.drop_last() == workers.drop_last());
    } else {
        assert(updated.drop_last() == workers.drop_last().update(worker, to));
        lemma_count_update(workers.drop_last(), worker, to, state);
    }
}

/// Every worker is idle, busy or stopped: the three counts add up to the size
/// of the table.
pub proof fn lemma_count_partition(workers: Seq<WorkerState>)
    ensures
        count_state(workers, WorkerState::Idle) + count_state(workers, WorkerState::Busy)
            + count_state(workers, WorkerState::Stopped) == workers.len(),
    decreases workers.len(),
{
    if workers.len() > 0 {
        lemma_count_partition(workers.drop_last());
    }
}

/// Construction gives out a pool of which the invariant holds.
pub proof fn lemma_initial_inv<J>(size: nat)
    requires
        size >= 1,
    ensures
        PoolModel::<J>::initial(size).inv(),
        PoolModel::<J>::initial(size).quiescent(),
{
    let m = PoolModel::<J>::initial(size);
    lemma_count_absent(m.workers, WorkerState::Busy);
    lemma_count_absent(m.workers, WorkerState::Stopped);
}

/// A submission keeps the invariant.
pub proof fn lemma_submit_inv<J>(m: PoolModel<J>, job: J)
    requires
        m.inv(),
    ensures
        m.submit(job).inv(),
{
}

/// A request for teardown keeps the invariant.
pub proof fn lemma_begin_teardown_inv<J>(m: PoolModel<J>)
    requires
        m.inv(),
    ensures
        m.begin_teardown().inv(),
{
    lemma_count_partition(m.workers);
}

/// A worker's request for its next item keeps the invariant.
pub proof fn lemma_receive_inv<J>(m: PoolModel<J>, worker: int)
    requires
        m.inv(),
    ensures
        m.receive(worker).inv(),
{
    if m.is_idle(worker) {
        if m.dispatched < m.accepted.len() {
            lemma_count_update(m.workers, worker, WorkerState::Busy, WorkerState::Idle);
            lemma_count_update(m.workers, worker, WorkerState::Busy, WorkerState::Busy);
            lemma_count_update(m.workers, worker, WorkerState::Busy, WorkerState::Stopped);
        } else if m.tokens > 0 {
            lemma_count_update(m.workers, worker, WorkerState::Stopped, WorkerState::Idle);
            lemma_count_update(m.workers, worker, WorkerState::Stopped, WorkerState::Busy);
            lemma_count_update(m.workers, worker, WorkerState::Stopped, WorkerState::Stopped);
        }
    }
}

/// A worker's report of the end of its job keeps the invariant.
pub proof fn lemma_complete_inv<J>(m: PoolModel<J>, worker: int, outcome: JobOutcome)
    requires
        m.inv(),
    ensures
        m.complete(worker, outcome).inv(),
{
    if m.is_busy(worker) {
        lemma_count_update(m.workers, worker, WorkerState::Idle, WorkerState::Idle);
        lemma_count_update(m.workers, worker, WorkerState::Idle, WorkerState::Busy);
        lemma_count_update(m.workers, worker, WorkerState::Idle, WorkerState::Stopped);
    }
}

} // verus!
