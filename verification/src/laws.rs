//! What holds of a pool over its whole life.
//!
//! Submitters and workers reach the pool in an order that nobody controls. A
//! run of the pool is therefore taken to be any sequence of [`Event`]s, and
//! each law below is proved for all of them: whatever the interleaving, every
//! accepted job is handed to exactly one worker, in the order of acceptance,
//! and teardown is final.

use crate::model::{
    lemma_begin_teardown_inv, lemma_complete_inv, lemma_count_absent, lemma_count_bounds,
    lemma_count_partition, lemma_count_update, lemma_count_zero, lemma_initial_inv,
    lemma_receive_inv, lemma_submit_inv, PoolModel, PoolPhase,
};
use crate::queue::Message;
use crate::worker::{Directive, JobOutcome, WorkerState};
use vstd::prelude::*;

verus! {

/// One call that reaches the pool.
pub enum Event<J> {
    /// A submitter hands in a job.
    Submit(J),
    /// The owner of the pool asks for teardown.
    BeginTeardown,
    /// The worker of this index asks for its next item.
    Receive(int),
    /// The worker of this index reports the end of its job.
    Complete(int, JobOutcome),
}

/// The pool after one event.
pub open spec fn step<J>(m: PoolModel<J>, event: Event<J>) -> PoolModel<J> {
    match event {
        Event::Submit(job) => m.submit(job),
        Event::BeginTeardown => m.begin_teardown(),
        Event::Receive(worker) => m.receive(worker),
        Event::Complete(worker, outcome) => m.complete(worker, outcome),
    }
}

/// The pool after a sequence of events, the first of them first.
pub open spec fn run<J>(m: PoolModel<J>, events: Seq<Event<J>>) -> PoolModel<J>
    decreases events.len(),
{
    if events.len() == 0 {
        m
    } else {
        step(run(m, events.drop_last()), events.last())
    }
}

/// The job that a worker is told to run in answer to `event`, if any.
pub open spec fn handed_out_by<J>(m: PoolModel<J>, event: Event<J>) -> Seq<J> {
    match event {
        Event::Receive(worker) => match m.directive(worker) {
            Directive::Run(job) => seq![job],
            _ => Seq::empty(),
        },
        _ => Seq::empty(),
    }
}

/// Every job that some worker was told to run in the course of `events`, in
/// the order of the hand-outs.
pub open spec fn handed_out<J>(m: PoolModel<J>, events: Seq<Event<J>>) -> Seq<J>
    decreases events.len(),
{
    if events.len() == 0 {
        Seq::empty()
    } else {
        handed_out(m, events.drop_last()) + handed_out_by(
            run(m, events.drop_last()),
            events.last(),
        )
    }
}

/// The jobs that `events` submit, in the order of submission.
pub open spec fn submitted<J>(events: Seq<Event<J>>) -> Seq<J>
    decreases events.len(),
{
    if events.len() == 0 {
        Seq::empty()
    } else {
        submitted(events.drop_last()) + match events.last() {
            Event::Submit(job) => seq![job],
            _ => Seq::empty(),
        }
    }
}

/// Whether none of `events` asks for teardown.
pub open spec fn without_teardown<J>(events: Seq<Event<J>>) -> bool {
    forall|i: int| 0 <= i < events.len() ==> !(#[trigger] events[i] is BeginTeardown)
}

/// The place of a phase in the life of a pool.
pub open spec fn phase_rank(phase: PoolPhase) -> nat {
    match phase {
        PoolPhase::Initializing => 0,
        PoolPhase::Running => 1,
        PoolPhase::Draining => 2,
        PoolPhase::Stopped => 3,
    }
}

/// The invariant of the pool survives every event.
pub proof fn law_step_keeps_invariant<J>(m: PoolModel<J>, event: Event<J>)
    requires
        m.inv(),
    ensures
        step(m, event).inv(),
{
    match event {
        Event::Submit(job) => lemma_submit_inv(m, job),
        Event::BeginTeardown => lemma_begin_teardown_inv(m),
        Event::Receive(worker) => lemma_receive_inv(m, worker),
        Event::Complete(worker, outcome) => lemma_complete_inv(m, worker, outcome),
    }
}

/// The invariant of the pool holds after every run, whatever the order in
/// which submitters and workers reached it.
pub proof fn law_run_keeps_invariant<J>(m: PoolModel<J>, events: Seq<Event<J>>)
    requires
        m.inv(),
    ensures
        run(m, events).inv(),
    decreases events.len(),
{
    if events.len() > 0 {
        law_run_keeps_invariant(m, events.drop_last());
        law_step_keeps_invariant(run(m, events.drop_last()), events.last());
    }
}

/// The size of a pool is fixed, its phase only moves forward, and nothing that
/// was accepted or dispatched is ever taken back.
pub proof fn law_run_is_monotone<J>(m: PoolModel<J>, events: Seq<Event<J>>)
    requires
        m.inv(),
    ensures
        run(m, events).workers.len() == m.workers.len(),
        phase_rank(run(m, events).phase) >= phase_rank(m.phase),
        run(m, events).accepted.len() >= m.accepted.len(),
        run(m, events).accepted.take(m.accepted.len() as int) == m.accepted,
        run(m, events).dispatched >= m.dispatched,
        run(m, events).finished >= m.finished,
    decreases events.len(),
{
    if events.len() > 0 {
        law_run_is_monotone(m, events.drop_last());
        law_run_keeps_invariant(m, events.drop_last());
    }
}

/// No job runs twice, none is passed over, and the order is that of
/// acceptance: the jobs that workers were told to run in the course of a run
/// are exactly the accepted jobs from where dispatch stood before the run to
/// where it stands after it, each once and in that order.
pub proof fn law_jobs_are_handed_out_once_in_order<J>(m: PoolModel<J>, events: Seq<Event<J>>)
    requires
        m.inv(),
    ensures
        m.dispatched <= run(m, events).dispatched <= run(m, events).accepted.len(),
        handed_out(m, events) == run(m, events).accepted.subrange(
            m.dispatched as int,
            run(m, events).dispatched as int,
        ),
    decreases events.len(),
{
    law_run_keeps_invariant(m, events);
    law_run_is_monotone(m, events);
    if events.len() > 0 {
        law_jobs_are_handed_out_once_in_order(m, events.drop_last());
        law_run_keeps_invariant(m, events.drop_last());
    }
}

/// While nobody asks for teardown every submission is accepted, whatever the
/// workers do in between and however the submissions of several submitters
/// interleave: the pool keeps running, and what it has accepted grows by
/// exactly the submitted jobs, in the order of submission.
pub proof fn law_every_submission_is_accepted<J>(m: PoolModel<J>, events: Seq<Event<J>>)
    requires
        m.inv(),
        m.phase == PoolPhase::Running,
        without_teardown(events),
    ensures
        run(m, events).phase == PoolPhase::Running,
        run(m, events).accepted == m.accepted + submitted(events),
    decreases events.len(),
{
    if events.len() > 0 {
        let earlier = events.drop_last();
        assert forall|i: int| 0 <= i < earlier.len() implies !(#[trigger] earlier[i]
            is BeginTeardown) by {
            assert(earlier[i] == events[i]);
        }
        law_every_submission_is_accepted(m, earlier);
        law_run_keeps_invariant(m, earlier);
    }
}

/// Once no job waits and no worker is busy, every accepted job has run to its
/// end.
pub proof fn law_quiescent_pool_has_finished_all<J>(m: PoolModel<J>)
    requires
        m.inv(),
        m.quiescent(),
    ensures
        m.finished == m.accepted.len(),
        m.pending() == Seq::<J>::empty(),
{
}

/// A pool of any size that was given jobs and never torn down has, once it is
/// quiescent, run each submitted job exactly once: what the workers were told
/// to run is the sequence of the submitted jobs, and as many jobs have ended
/// as were submitted.
pub proof fn law_each_submitted_job_runs_once<J>(size: nat, events: Seq<Event<J>>)
    requires
        size >= 1,
        without_teardown(events),
        run(PoolModel::<J>::initial(size), events).quiescent(),
    ensures
        handed_out(PoolModel::<J>::initial(size), events) == submitted(events),
        run(PoolModel::<J>::initial(size), events).finished == submitted(events).len(),
{
    let start = PoolModel::<J>::initial(size);
    lemma_initial_inv::<J>(size);
    law_run_keeps_invariant(start, events);
    law_every_submission_is_accepted(start, events);
    law_jobs_are_handed_out_once_in_order(start, events);
    assert(run(start, events).accepted == submitted(events));
}

/// Teardown is final: once it has begun the pool never runs again, every
/// later submission is refused, and what was accepted before stays exactly
/// what the pool has accepted.
pub proof fn law_teardown_is_terminal<J>(m: PoolModel<J>, events: Seq<Event<J>>)
    requires
        m.inv(),
        m.phase == PoolPhase::Draining || m.phase == PoolPhase::Stopped,
    ensures
        run(m, events).phase == PoolPhase::Draining || run(m, events).phase == PoolPhase::Stopped,
        !run(m, events).accepts(),
        run(m, events).accepted == m.accepted,
    decreases events.len(),
{
    if events.len() > 0 {
        law_teardown_is_terminal(m, events.drop_last());
        law_run_keeps_invariant(m, events.drop_last());
    }
}

/// A stopped pool has nothing left: every worker has stopped, the queue is
/// empty, and every job accepted before teardown was dispatched and has run to
/// its end.
pub proof fn law_stopped_pool_has_finished_all<J>(m: PoolModel<J>)
    requires
        m.inv(),
        m.phase == PoolPhase::Stopped,
    ensures
        forall|i: int| 0 <= i < m.workers.len() ==> m.workers[i] == WorkerState::Stopped,
        m.queue() == Seq::<Message<J>>::empty(),
        m.dispatched == m.accepted.len(),
        m.finished == m.accepted.len(),
{
    lemma_count_partition(m.workers);
    lemma_count_bounds(m.workers, WorkerState::Stopped);
}

/// A teardown in which the first `stopped` workers, in the order of their
/// indices, have asked for their next item since it began.
pub open spec fn teardown_round<J>(stopped: nat) -> Seq<Event<J>> {
    Seq::new(
        stopped + 1,
        |i: int|
            if i == 0 {
                Event::BeginTeardown
            } else {
                Event::Receive(i - 1)
            },
    )
}

/// Where an idle pool stands in the middle of its teardown: the workers that
/// have asked are stopped, each with one token, and nothing else has moved.
proof fn lemma_teardown_round<J>(m: PoolModel<J>, stopped: nat)
    requires
        m.inv(),
        m.phase == PoolPhase::Running,
        m.quiescent(),
        stopped <= m.workers.len(),
    ensures
        run(m, teardown_round(stopped)) == (PoolModel {
            phase: if stopped == m.workers.len() {
                PoolPhase::Stopped
            } else {
                PoolPhase::Draining
            },
            workers: Seq::new(
                m.workers.len(),
                |i: int|
                    if i < stopped {
                        WorkerState::Stopped
                    } else {
                        WorkerState::Idle
                    },
            ),
            tokens: (m.workers.len() - stopped) as nat,
            ..m
        }),
        handed_out(m, teardown_round(stopped)) == Seq::<J>::empty(),
    decreases stopped,
{
    let round = teardown_round::<J>(stopped);
    lemma_count_zero(m.workers, WorkerState::Busy);
    lemma_count_zero(m.workers, WorkerState::Stopped);
    if stopped == 0 {
        assert(run(m, round.drop_last()) == m);
        assert(run(m, round).workers == Seq::new(
            m.workers.len(),
            |i: int|
                if i < stopped {
                    WorkerState::Stopped
                } else {
                    WorkerState::Idle
                },
        ));
        assert(handed_out(m, round.drop_last()) == Seq::<J>::empty());
    } else {
        let earlier = teardown_round::<J>((stopped - 1) as nat);
        lemma_teardown_round(m, (stopped - 1) as nat);
        assert(round.drop_last() == earlier);
        assert(run(m, round).workers == Seq::new(
            m.workers.len(),
            |i: int|
                if i < stopped {
                    WorkerState::Stopped
                } else {
                    WorkerState::Idle
                },
        ));
    }
}

/// Teardown of an idle pool needs no more than one step of each worker: with
/// no job waiting and no worker busy, the pool is stopped as soon as every
/// worker has asked once for its next item, and no job is run on the way.
pub proof fn law_idle_teardown_stops_at_once<J>(m: PoolModel<J>)
    requires
        m.inv(),
        m.phase == PoolPhase::Running,
        m.quiescent(),
    ensures
        run(m, teardown_round(m.workers.len())).phase == PoolPhase::Stopped,
        run(m, teardown_round(m.workers.len())).accepted == m.accepted,
        run(m, teardown_round(m.workers.len())).finished == m.finished,
        handed_out(m, teardown_round(m.workers.len())) == Seq::<J>::empty(),
{
    lemma_teardown_round(m, m.workers.len());
}

/// A run in two parts is the run of the second part from where the first
/// part ended.
pub proof fn lemma_run_concat<J>(m: PoolModel<J>, first: Seq<Event<J>>, second: Seq<Event<J>>)
    ensures
        run(m, first + second) == run(run(m, first), second),
    decreases second.len(),
{
    if second.len() == 0 {
        assert(first + second == first);
    } else {
        assert((first + second).drop_last() == first + second.drop_last());
        lemma_run_concat(m, first, second.drop_last());
    }
}

/// What a pool accepts is what was submitted before teardown began, and
/// nothing else: of a run that holds a request for teardown, the submissions
/// before the first such request are accepted, in their order, and every
/// later one is refused.
pub proof fn law_only_submissions_before_teardown_are_accepted<J>(
    m: PoolModel<J>,
    before: Seq<Event<J>>,
    after: Seq<Event<J>>,
)
    requires
        m.inv(),
        m.phase == PoolPhase::Running,
        without_teardown(before),
    ensures
        run(m, before + seq![Event::BeginTeardown] + after).accepted == m.accepted + submitted(
            before,
        ),
        !run(m, before + seq![Event::BeginTeardown] + after).accepts(),
{
    let request = seq![Event::<J>::BeginTeardown];
    let running = run(m, before);
    law_every_submission_is_accepted(m, before);
    law_run_keeps_invariant(m, before);
    lemma_run_concat(m, before, request);
    assert(run(running, request.drop_last()) == running);
    lemma_begin_teardown_inv(running);
    lemma_run_concat(m, before + request, after);
    law_teardown_is_terminal(run(running, request), after);
}

/// A pool that was torn down and has stopped has run every job that it ever
/// accepted, each exactly once and in the order of acceptance, whatever
/// happened in which order on the way.
pub proof fn law_stopped_pool_ran_every_accepted_job<J>(size: nat, events: Seq<Event<J>>)
    requires
        size >= 1,
        run(PoolModel::<J>::initial(size), events).phase == PoolPhase::Stopped,
    ensures
        handed_out(PoolModel::<J>::initial(size), events) == run(
            PoolModel::<J>::initial(size),
            events,
        ).accepted,
        run(PoolModel::<J>::initial(size), events).finished == run(
            PoolModel::<J>::initial(size),
            events,
        ).accepted.len(),
{
    let start = PoolModel::<J>::initial(size);
    lemma_initial_inv::<J>(size);
    law_run_keeps_invariant(start, events);
    law_jobs_are_handed_out_once_in_order(start, events);
    law_stopped_pool_has_finished_all(run(start, events));
}

/// Neither a pending job nor a teardown is ever stuck: while a job waits, or
/// while the pool drains, some worker can take a step that moves the pool on.
pub proof fn law_some_worker_can_always_move<J>(m: PoolModel<J>)
    requires
        m.inv(),
        m.phase == PoolPhase::Draining || m.pending().len() > 0,
    ensures
        exists|worker: int| m.can_move(worker),
{
    lemma_count_partition(m.workers);
    if forall|i: int|
        0 <= i < m.workers.len() ==> m.workers[i] != WorkerState::Idle && m.workers[i]
            != WorkerState::Busy {
        // Then no worker would be alive: but a draining pool has one, and so
        // has a running pool.
        lemma_count_absent(m.workers, WorkerState::Idle);
        lemma_count_absent(m.workers, WorkerState::Busy);
        assert(m.live() == 0);
        assert(false);
    }
    let worker = choose|i: int|
        0 <= i < m.workers.len() && (m.workers[i] == WorkerState::Idle || m.workers[i]
            == WorkerState::Busy);
    assert(m.can_move(worker));
}

/// Each step that moves the pool on takes exactly one unit off the work that
/// is left, so that a teardown cannot go on for ever.
pub proof fn law_each_move_takes_work_off<J>(m: PoolModel<J>, worker: int, outcome: JobOutcome)
    requires
        m.inv(),
        m.can_move(worker),
    ensures
        m.is_busy(worker) ==> m.complete(worker, outcome).work_left() + 1 == m.work_left(),
        m.is_idle(worker) ==> m.receive(worker).work_left() + 1 == m.work_left(),
{
    if m.is_busy(worker) {
        lemma_count_update(m.workers, worker, WorkerState::Idle, WorkerState::Busy);
    } else if m.dispatched < m.accepted.len() {
        lemma_count_update(m.workers, worker, WorkerState::Busy, WorkerState::Busy);
    } else {
        lemma_count_update(m.workers, worker, WorkerState::Stopped, WorkerState::Busy);
    }
}

/// Once teardown has begun, the pool is stopped exactly when no work is left.
pub proof fn law_teardown_ends_when_no_work_is_left<J>(m: PoolModel<J>)
    requires
        m.inv(),
        m.phase == PoolPhase::Draining || m.phase == PoolPhase::Stopped,
    ensures
        m.phase == PoolPhase::Stopped <==> m.work_left() == 0,
{
    if m.phase == PoolPhase::Stopped {
        law_stopped_pool_has_finished_all(m);
    }
}

/// A fault stays inside the run of its job: but for the tally of faults, the
/// pool after a faulted job is the pool after a job that returned.
pub proof fn law_fault_is_contained<J>(m: PoolModel<J>, worker: int)
    requires
        m.is_busy(worker),
    ensures
        m.complete(worker, JobOutcome::Faulted) == (PoolModel {
            faulted: m.faulted + 1,
            ..m.complete(worker, JobOutcome::Completed)
        }),
        m.complete(worker, JobOutcome::Faulted).workers[worker] == WorkerState::Idle,
{
}

} // verus!
