//! The worker pool: a fixed set of workers behind one job queue.
//!
//! [`WorkerPool`] is the executable pool. Its view is a
//! [`PoolModel`](crate::model::PoolModel), and each operation is held to the
//! transition of that name.

use crate::error::{PoolError, Rejected};
use crate::model::{
    count_state, lemma_begin_teardown_inv, lemma_complete_inv, lemma_count_partition,
    lemma_count_update, lemma_initial_inv, lemma_receive_inv, lemma_submit_inv, PoolModel,
    PoolPhase,
};
use crate::queue::{JobQueue, Message};
use crate::worker::{Directive, JobOutcome, Worker, WorkerState};
use vstd::prelude::*;

verus! {

/// The tally of faults as far as a `u64` holds it.
pub open spec fn saturated(count: nat) -> u64 {
    if count <= u64::MAX {
        count as u64
    } else {
        u64::MAX
    }
}

/// A pool of workers that take jobs of type `J` from a shared FIFO queue.
///
/// The pool owns the sending side of the queue and the table of its workers.
/// Its size is fixed at construction.
pub struct WorkerPool<J> {
    phase: PoolPhase,
    workers: Vec<Worker>,
    queue: JobQueue<J>,
    faults: u64,
    model: Ghost<PoolModel<J>>,
}

impl<J> View for WorkerPool<J> {
    type V = PoolModel<J>;

    closed spec fn view(&self) -> PoolModel<J> {
        self.model@
    }
}

impl<J> WorkerPool<J> {
    /// The worker table holds the workers of the model, each under its index.
    closed spec fn workers_agree(&self) -> bool {
        &&& self.workers@.len() == self@.workers.len()
        &&& forall|i: int|
            0 <= i < self.workers@.len() ==> (#[trigger] self.workers@[i]).id() == i
                && self.workers@[i].state() == self@.workers[i]
    }

    /// The fields of the pool hold what its view says.
    pub closed spec fn consistent(&self) -> bool {
        &&& self.phase == self@.phase
        &&& self.workers_agree()
        &&& self.queue@ == self@.queue()
        &&& self.queue.live_receivers() == self@.live()
        &&& self.faults == saturated(self@.faulted)
    }

    /// The pool is well formed: its fields hold what its view says, and the
    /// view is a state that a pool can be in.
    pub open spec fn wf(&self) -> bool {
        self.consistent() && self@.inv()
    }

    /// A pool of `size` workers, all idle, with an empty queue.
    ///
    /// A pool without workers could never run a job: `size == 0` is refused
    /// with [`PoolError::EmptyPoolConfig`] before anything is created.
    pub fn new(size: usize) -> (res: Result<WorkerPool<J>, PoolError>)
        ensures
            size == 0 ==> res is Err && res->Err_0 == PoolError::EmptyPoolConfig,
            size > 0 ==> {
                &&& res is Ok
                &&& res->Ok_0.wf()
                &&& res->Ok_0@ == PoolModel::<J>::initial(size as nat)
            },
    {
        if size == 0 {
            return Err(PoolError::EmptyPoolConfig);
        }
        let mut pool = WorkerPool {
            phase: PoolPhase::Initializing,
            workers: Vec::new(),
            queue: JobQueue::new(size),
            faults: 0,
            model: Ghost(
                PoolModel {
                    phase: PoolPhase::Initializing,
                    workers: Seq::empty(),
                    ..PoolModel::initial(size as nat)
                },
            ),
        };
        while pool.workers.len() < size
            invariant
                pool.phase == PoolPhase::Initializing,
                pool.workers@.len() <= size,
                forall|i: int|
                    0 <= i < pool.workers@.len() ==> (#[trigger] pool.workers@[i]).id() == i
                        && pool.workers@[i].state() == WorkerState::Idle,
                pool.queue@ == Seq::<Message<J>>::empty(),
                pool.queue.live_receivers() == size,
                pool.faults == 0,
            decreases size - pool.workers@.len(),
        {
            let id = pool.workers.len();
            pool.workers.push(Worker::new(id));
        }
        pool.phase = PoolPhase::Running;
        pool.model = Ghost(PoolModel::initial(size as nat));
        proof {
            lemma_initial_inv::<J>(size as nat);
            lemma_count_partition(pool@.workers);
            assert(pool.queue@ == pool@.queue());
        }
        Ok(pool)
    }

    /// Submits `job`: it is queued behind every job accepted before it, and
    /// the call returns at once.
    ///
    /// Once teardown has begun nothing is accepted any more: the pool stays as
    /// it was and the job comes back with [`PoolError::PoolShuttingDown`].
    pub fn execute(&mut self, job: J) -> (res: Result<(), Rejected<J>>)
        requires
            old(self).wf(),
        ensures
            final(self).wf(),
            final(self)@ == old(self)@.submit(job),
            old(self)@.accepts() ==> res is Ok,
            !old(self)@.accepts() ==> {
                &&& res is Err
                &&& res->Err_0 == (Rejected { reason: PoolError::PoolShuttingDown, job })
            },
    {
        match self.phase {
            PoolPhase::Running => {},
            _ => {
                return Err(Rejected { reason: PoolError::PoolShuttingDown, job });
            },
        }
        let ghost next = self@.submit(job);
        proof {
            lemma_submit_inv(self@, job);
            lemma_count_partition(self@.workers);
        }
        let res = self.queue.send(job);
        self.model = Ghost(next);
        assert(self.queue@ == next.queue());
        res
    }

    /// Begins teardown: from now on no job is accepted, and one termination
    /// token for each worker is queued behind the jobs accepted so far.
    ///
    /// Answers whether this call began teardown. Only the first call on a
    /// running pool does; any later call changes nothing.
    pub fn begin_teardown(&mut self) -> (began: bool)
        requires
            old(self).wf(),
        ensures
            final(self).wf(),
            final(self)@ == old(self)@.begin_teardown(),
            began <==> old(self)@.phase == PoolPhase::Running,
    {
        match self.phase {
            PoolPhase::Running => {},
            _ => {
                return false;
            },
        }
        let ghost before = self@;
        let ghost next = self@.begin_teardown();
        proof {
            lemma_begin_teardown_inv(self@);
            lemma_count_partition(self@.workers);
        }
        let size = self.workers.len();
        let mut sent: usize = 0;
        while sent < size
            invariant
                sent <= size,
                size == before.workers.len(),
                before.tokens == 0,
                before.dispatched <= before.accepted.len(),
                self@ == before,
                self.phase == before.phase,
                self.workers_agree(),
                self.faults == saturated(before.faulted),
                self.queue.live_receivers() == before.live(),
                before.live() == size,
                size >= 1,
                self.queue@ == (PoolModel { tokens: sent as nat, ..before }).queue(),
            decreases size - sent,
        {
            let signalled = self.queue.send_termination();
            assert(signalled is Ok);
            sent = sent + 1;
        }
        self.phase = PoolPhase::Draining;
        self.model = Ghost(next);
        true
    }

    /// Worker `worker` asks for its next item.
    ///
    /// An idle worker receives the oldest pending job and becomes busy with
    /// it; with no job pending it takes a termination token, if one waits, and
    /// stops. Otherwise nothing changes: an idle or busy worker is told to
    /// wait, a stopped or unknown one to exit.
    pub fn receive(&mut self, worker: usize) -> (directive: Directive<J>)
        requires
            old(self).wf(),
        ensures
            final(self).wf(),
            final(self)@ == old(self)@.receive(worker as int),
            directive == old(self)@.directive(worker as int),
    {
        if worker >= self.workers.len() {
            return Directive::Exit;
        }
        match self.workers[worker].state() {
            WorkerState::Stopped => {
                return Directive::Exit;
            },
            WorkerState::Busy => {
                return Directive::Wait;
            },
            WorkerState::Idle => {},
        }
        let ghost before = self@;
        let ghost next = self@.receive(worker as int);
        proof {
            lemma_receive_inv(self@, worker as int);
        }
        match self.queue.receive() {
            None => Directive::Wait,
            Some(message) => {
                let mut taker = self.workers[worker];
                let directive = taker.take(message);
                self.workers.set(worker, taker);
                if !taker.is_running() {
                    self.queue.disconnect();
                    if self.queue.receivers() == 0 {
                        self.phase = PoolPhase::Stopped;
                    }
                }
                self.model = Ghost(next);
                proof {
                    lemma_count_update(
                        before.workers,
                        worker as int,
                        next.workers[worker as int],
                        WorkerState::Idle,
                    );
                    lemma_count_update(
                        before.workers,
                        worker as int,
                        next.workers[worker as int],
                        WorkerState::Busy,
                    );
                    assert(self.queue@ == next.queue());
                }
                directive
            },
        }
    }

    /// Worker `worker` reports that the job it was running has ended.
    ///
    /// The worker is idle again, whether the job returned or faulted: a fault
    /// is counted and touches neither the queue nor any other worker. Answers
    /// whether the report was taken; from a worker that was not busy it is
    /// not, and nothing changes.
    pub fn complete(&mut self, worker: usize, outcome: JobOutcome) -> (recorded: bool)
        requires
            old(self).wf(),
        ensures
            final(self).wf(),
            final(self)@ == old(self)@.complete(worker as int, outcome),
            recorded <==> old(self)@.is_busy(worker as int),
    {
        if worker >= self.workers.len() {
            return false;
        }
        let mut reporter = self.workers[worker];
        if !reporter.finish() {
            return false;
        }
        let ghost before = self@;
        let ghost next = self@.complete(worker as int, outcome);
        proof {
            lemma_complete_inv(self@, worker as int, outcome);
            lemma_count_update(
                before.workers,
                worker as int,
                WorkerState::Idle,
                WorkerState::Idle,
            );
            lemma_count_update(
                before.workers,
                worker as int,
                WorkerState::Idle,
                WorkerState::Busy,
            );
        }
        self.workers.set(worker, reporter);
        match outcome {
            JobOutcome::Faulted => {
                if self.faults < u64::MAX {
                    self.faults = self.faults + 1;
                }
            },
            JobOutcome::Completed => {},
        }
        self.model = Ghost(next);
        true
    }

    /// The phase of the pool's life.
    pub fn phase(&self) -> (phase: PoolPhase)
        requires
            self.wf(),
        ensures
            phase == self@.phase,
    {
        self.phase
    }

    /// The number of workers, fixed at construction.
    pub fn size(&self) -> (size: usize)
        requires
            self.wf(),
        ensures
            size == self@.workers.len(),
    {
        self.workers.len()
    }

    /// How many accepted jobs wait for a worker.
    pub fn pending(&self) -> (jobs: usize)
        requires
            self.wf(),
        ensures
            jobs == self@.pending().len(),
    {
        match self.phase {
            PoolPhase::Draining => self.queue.len() - self.queue.receivers(),
            _ => self.queue.len(),
        }
    }

    /// How many workers have not stopped.
    pub fn live_workers(&self) -> (live: usize)
        requires
            self.wf(),
        ensures
            live == self@.live(),
    {
        self.queue.receivers()
    }

    /// How many workers are running a job at this moment.
    pub fn busy_workers(&self) -> (busy: usize)
        requires
            self.wf(),
        ensures
            busy == self@.busy(),
    {
        let mut busy: usize = 0;
        let mut index: usize = 0;
        while index < self.workers.len()
            invariant
                self.workers_agree(),
                index <= self.workers@.len(),
                busy <= index,
                busy == count_state(self@.workers.take(index as int), WorkerState::Busy),
            decreases self.workers@.len() - index,
        {
            proof {
                assert(self@.workers.take(index + 1).drop_last() == self@.workers.take(
                    index as int,
                ));
            }
            match self.workers[index].state() {
                WorkerState::Busy => {
                    busy = busy + 1;
                },
                _ => {},
            }
            index = index + 1;
        }
        proof {
            assert(self@.workers.take(index as int) == self@.workers);
        }
        busy
    }

    /// The state of worker `worker`, or `None` if the pool has no such worker.
    pub fn worker_state(&self, worker: usize) -> (state: Option<WorkerState>)
        requires
            self.wf(),
        ensures
            worker < self@.workers.len() ==> state == Some(self@.workers[worker as int]),
            worker >= self@.workers.len() ==> state is None,
    {
        if worker < self.workers.len() {
            Some(self.workers[worker].state())
        } else {
            None
        }
    }

    /// How many jobs ended in a fault, counted up to `u64::MAX`.
    pub fn faults(&self) -> (faults: u64)
        requires
            self.wf(),
        ensures
            faults == saturated(self@.faulted),
    {
        self.faults
    }
}

} // verus!
