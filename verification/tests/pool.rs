use std::cell::{Cell, RefCell};
use std::rc::Rc;
use worker_pool::error::PoolError;
use worker_pool::model::PoolPhase;
use worker_pool::pool::WorkerPool;
use worker_pool::worker::{Directive, JobOutcome, WorkerState};

type Task = Box<dyn FnOnce()>;

/// Lets every worker in turn ask, run and report until a whole round brings
/// no job. Gives the number of jobs that were run and of workers that left.
fn work_until_idle(pool: &mut WorkerPool<Task>) -> (usize, usize) {
    let mut ran = 0;
    let mut exits = 0;
    loop {
        let mut progress = false;
        for worker in 0..pool.size() {
            let was_running = pool.worker_state(worker) != Some(WorkerState::Stopped);
            match pool.receive(worker) {
                Directive::Run(job) => {
                    job();
                    assert!(pool.complete(worker, JobOutcome::Completed));
                    ran += 1;
                    progress = true;
                }
                Directive::Exit => {
                    if was_running {
                        exits += 1;
                        progress = true;
                    }
                }
                Directive::Wait => {}
            }
        }
        if !progress {
            return (ran, exits);
        }
    }
}

fn counting_job(counter: &Rc<Cell<usize>>) -> Task {
    let counter = Rc::clone(counter);
    Box::new(move || counter.set(counter.get() + 1))
}

fn recording_job(log: &Rc<RefCell<Vec<usize>>>, id: usize) -> Task {
    let log = Rc::clone(log);
    Box::new(move || log.borrow_mut().push(id))
}

fn run_counting_jobs(workers: usize, jobs: usize) {
    let mut pool: WorkerPool<Task> = WorkerPool::new(workers).ok().expect("a pool");
    let counter = Rc::new(Cell::new(0));
    for _ in 0..jobs {
        assert!(pool.execute(counting_job(&counter)).is_ok());
    }
    assert_eq!(pool.pending(), jobs);
    assert_eq!(work_until_idle(&mut pool), (jobs, 0));
    assert_eq!(counter.get(), jobs);
    assert_eq!(pool.pending(), 0);
    assert_eq!(pool.busy_workers(), 0);
    assert_eq!(pool.phase(), PoolPhase::Running);
}

#[test]
fn new_rejects_zero_workers() {
    match WorkerPool::<u32>::new(0) {
        Ok(_) => panic!("a pool without workers"),
        Err(error) => assert_eq!(error, PoolError::EmptyPoolConfig),
    }
}

#[test]
fn new_pool_runs_with_idle_workers() {
    let pool: WorkerPool<u32> = WorkerPool::new(3).ok().expect("a pool");
    assert_eq!(pool.phase(), PoolPhase::Running);
    assert_eq!(pool.size(), 3);
    assert_eq!(pool.live_workers(), 3);
    assert_eq!(pool.busy_workers(), 0);
    assert_eq!(pool.pending(), 0);
    assert_eq!(pool.faults(), 0);
    for worker in 0..3 {
        assert_eq!(pool.worker_state(worker), Some(WorkerState::Idle));
    }
    assert_eq!(pool.worker_state(3), None);
}

#[test]
fn every_counting_job_runs() {
    for workers in [1, 2, 3, 8] {
        for jobs in [0, 1, 2, 7, 50] {
            run_counting_jobs(workers, jobs);
        }
    }
}

#[test]
fn no_job_runs_twice() {
    for workers in [1, 2, 5] {
        let mut pool: WorkerPool<Task> = WorkerPool::new(workers).ok().expect("a pool");
        let log = Rc::new(RefCell::new(Vec::new()));
        for id in 0..40 {
            assert!(pool.execute(recording_job(&log, id)).is_ok());
        }
        assert_eq!(work_until_idle(&mut pool), (40, 0));
        assert_eq!(work_until_idle(&mut pool), (0, 0));
        let mut seen = log.borrow().clone();
        assert_eq!(seen.len(), 40);
        seen.sort();
        assert_eq!(seen, (0..40).collect::<Vec<usize>>());
    }
}

#[test]
fn interleaved_submitters_are_all_served() {
    let mut pool: WorkerPool<Task> = WorkerPool::new(3).ok().expect("a pool");
    let counter = Rc::new(Cell::new(0));
    let log = Rc::new(RefCell::new(Vec::new()));
    let mut ran = 0;
    for round in 0..20 {
        for submitter in 0..4 {
            assert!(pool.execute(recording_job(&log, submitter * 100 + round)).is_ok());
            assert!(pool.execute(counting_job(&counter)).is_ok());
            if (round + submitter) % 3 == 0 {
                if let Directive::Run(job) = pool.receive(submitter % 3) {
                    job();
                    assert!(pool.complete(submitter % 3, JobOutcome::Completed));
                    ran += 1;
                }
            }
        }
    }
    let (rest, exits) = work_until_idle(&mut pool);
    assert_eq!(ran + rest, 160);
    assert_eq!(exits, 0);
    assert_eq!(counter.get(), 80);
    assert_eq!(log.borrow().len(), 80);
    for submitter in 0..4 {
        let own: Vec<usize> =
            log.borrow().iter().copied().filter(|id| id / 100 == submitter).collect();
        assert_eq!(own, (0..20).map(|round| submitter * 100 + round).collect::<Vec<usize>>());
    }
}

#[test]
fn single_worker_runs_jobs_in_order_of_submission() {
    let mut pool: WorkerPool<Task> = WorkerPool::new(1).ok().expect("a pool");
    let log = Rc::new(RefCell::new(Vec::new()));
    for id in [1, 2, 3] {
        assert!(pool.execute(recording_job(&log, id)).is_ok());
    }
    assert_eq!(work_until_idle(&mut pool), (3, 0));
    assert_eq!(*log.borrow(), vec![1, 2, 3]);
}

#[test]
fn jobs_are_dispatched_in_order_across_workers() {
    let mut pool: WorkerPool<u32> = WorkerPool::new(3).ok().expect("a pool");
    for job in [10, 20, 30, 40] {
        assert!(pool.execute(job).is_ok());
    }
    assert!(matches!(pool.receive(2), Directive::Run(10)));
    assert!(matches!(pool.receive(0), Directive::Run(20)));
    assert!(matches!(pool.receive(1), Directive::Run(30)));
    assert_eq!(pool.pending(), 1);
    assert_eq!(pool.busy_workers(), 3);
    assert!(pool.complete(0, JobOutcome::Completed));
    assert!(matches!(pool.receive(0), Directive::Run(40)));
    assert_eq!(pool.pending(), 0);
}

#[test]
fn four_workers_share_a_hundred_jobs() {
    let mut pool: WorkerPool<Task> = WorkerPool::new(4).ok().expect("a pool");
    let counter = Rc::new(Cell::new(0));
    for _ in 0..100 {
        assert!(pool.execute(counting_job(&counter)).is_ok());
    }
    let mut rounds = 0;
    while pool.pending() > 0 {
        let mut in_flight = Vec::new();
        for worker in 0..4 {
            match pool.receive(worker) {
                Directive::Run(job) => in_flight.push((worker, job)),
                _ => panic!("a job waits and an idle worker did not get it"),
            }
        }
        assert_eq!(pool.busy_workers(), 4);
        for (worker, job) in in_flight {
            job();
            assert!(pool.complete(worker, JobOutcome::Completed));
        }
        rounds += 1;
    }
    assert_eq!(counter.get(), 100);
    assert_eq!(rounds, 25);
    assert_eq!(pool.busy_workers(), 0);
}

#[test]
fn busy_worker_gets_no_second_job() {
    let mut pool: WorkerPool<u32> = WorkerPool::new(2).ok().expect("a pool");
    assert!(pool.execute(1).is_ok());
    assert!(pool.execute(2).is_ok());
    assert!(matches!(pool.receive(0), Directive::Run(1)));
    assert_eq!(pool.worker_state(0), Some(WorkerState::Busy));
    assert!(matches!(pool.receive(0), Directive::Wait));
    assert_eq!(pool.pending(), 1);
    assert_eq!(pool.busy_workers(), 1);
    assert!(pool.complete(0, JobOutcome::Completed));
    assert_eq!(pool.worker_state(0), Some(WorkerState::Idle));
    assert!(matches!(pool.receive(0), Directive::Run(2)));
}

#[test]
fn idle_worker_waits_on_empty_queue() {
    let mut pool: WorkerPool<u32> = WorkerPool::new(2).ok().expect("a pool");
    assert!(matches!(pool.receive(0), Directive::Wait));
    assert!(matches!(pool.receive(1), Directive::Wait));
    assert_eq!(pool.worker_state(0), Some(WorkerState::Idle));
    assert_eq!(pool.phase(), PoolPhase::Running);
}

#[test]
fn unknown_worker_is_told_to_exit() {
    let mut pool: WorkerPool<u32> = WorkerPool::new(2).ok().expect("a pool");
    assert!(pool.execute(1).is_ok());
    assert!(matches!(pool.receive(2), Directive::Exit));
    assert!(matches!(pool.receive(usize::MAX), Directive::Exit));
    assert_eq!(pool.pending(), 1);
    assert_eq!(pool.live_workers(), 2);
    assert!(!pool.complete(2, JobOutcome::Completed));
}

#[test]
fn completion_counts_only_for_a_busy_worker() {
    let mut pool: WorkerPool<u32> = WorkerPool::new(1).ok().expect("a pool");
    assert!(!pool.complete(0, JobOutcome::Completed));
    assert!(!pool.complete(0, JobOutcome::Faulted));
    assert_eq!(pool.faults(), 0);
    assert!(pool.execute(1).is_ok());
    assert!(matches!(pool.receive(0), Directive::Run(1)));
    assert!(pool.complete(0, JobOutcome::Completed));
    assert!(!pool.complete(0, JobOutcome::Completed));
    assert_eq!(pool.worker_state(0), Some(WorkerState::Idle));
}

#[test]
fn fault_stays_inside_its_job() {
    let mut pool: WorkerPool<u32> = WorkerPool::new(2).ok().expect("a pool");
    for job in [1, 2, 3] {
        assert!(pool.execute(job).is_ok());
    }
    assert!(matches!(pool.receive(0), Directive::Run(1)));
    assert!(matches!(pool.receive(1), Directive::Run(2)));
    assert!(pool.complete(0, JobOutcome::Faulted));
    assert_eq!(pool.faults(), 1);
    assert_eq!(pool.phase(), PoolPhase::Running);
    assert_eq!(pool.worker_state(0), Some(WorkerState::Idle));
    assert_eq!(pool.worker_state(1), Some(WorkerState::Busy));
    assert_eq!(pool.pending(), 1);
    assert_eq!(pool.live_workers(), 2);
    assert!(matches!(pool.receive(0), Directive::Run(3)));
    assert!(pool.complete(1, JobOutcome::Completed));
    assert!(pool.complete(0, JobOutcome::Faulted));
    assert_eq!(pool.faults(), 2);
    assert!(pool.execute(4).is_ok());
    assert!(matches!(pool.receive(1), Directive::Run(4)));
}

#[test]
fn execute_after_teardown_is_refused() {
    let mut pool: WorkerPool<u32> = WorkerPool::new(2).ok().expect("a pool");
    assert!(pool.execute(1).is_ok());
    assert!(pool.begin_teardown());
    assert_eq!(pool.phase(), PoolPhase::Draining);
    match pool.execute(2) {
        Ok(()) => panic!("a draining pool took a job"),
        Err(rejected) => {
            assert_eq!(rejected.reason, PoolError::PoolShuttingDown);
            assert_eq!(rejected.job, 2);
        }
    }
    assert_eq!(pool.pending(), 1);
    assert!(matches!(pool.receive(0), Directive::Run(1)));
    assert!(pool.complete(0, JobOutcome::Completed));
    assert!(matches!(pool.receive(0), Directive::Exit));
    assert!(matches!(pool.receive(1), Directive::Exit));
    assert_eq!(pool.phase(), PoolPhase::Stopped);
    for job in [3, 4] {
        match pool.execute(job) {
            Ok(()) => panic!("a stopped pool took a job"),
            Err(rejected) => {
                assert_eq!(rejected.reason, PoolError::PoolShuttingDown);
                assert_eq!(rejected.job, job);
            }
        }
    }
    assert_eq!(pool.pending(), 0);
    assert_eq!(pool.phase(), PoolPhase::Stopped);
}

#[test]
fn teardown_of_idle_pool_takes_one_round() {
    for workers in [1, 2, 6] {
        let mut pool: WorkerPool<Task> = WorkerPool::new(workers).ok().expect("a pool");
        assert!(pool.begin_teardown());
        assert_eq!(pool.phase(), PoolPhase::Draining);
        assert_eq!(pool.pending(), 0);
        for worker in 0..workers {
            assert_eq!(pool.live_workers(), workers - worker);
            assert!(matches!(pool.receive(worker), Directive::Exit));
            assert_eq!(pool.worker_state(worker), Some(WorkerState::Stopped));
        }
        assert_eq!(pool.phase(), PoolPhase::Stopped);
        assert_eq!(pool.live_workers(), 0);
    }
}

#[test]
fn teardown_runs_what_was_accepted_before() {
    let mut pool: WorkerPool<Task> = WorkerPool::new(3).ok().expect("a pool");
    let log = Rc::new(RefCell::new(Vec::new()));
    for id in 0..10 {
        assert!(pool.execute(recording_job(&log, id)).is_ok());
    }
    let in_flight = match pool.receive(1) {
        Directive::Run(job) => job,
        _ => panic!("no job for an idle worker"),
    };
    assert!(pool.begin_teardown());
    assert!(pool.execute(recording_job(&log, 99)).is_err());
    assert_eq!(pool.pending(), 9);
    assert!(matches!(pool.receive(1), Directive::Wait));
    in_flight();
    assert!(pool.complete(1, JobOutcome::Completed));
    assert_eq!(work_until_idle(&mut pool), (9, 3));
    assert_eq!(pool.phase(), PoolPhase::Stopped);
    assert_eq!(pool.busy_workers(), 0);
    assert_eq!(pool.live_workers(), 0);
    assert_eq!(*log.borrow(), (0..10).collect::<Vec<usize>>());
}

#[test]
fn worker_stops_only_after_the_pending_jobs() {
    let mut pool: WorkerPool<u32> = WorkerPool::new(2).ok().expect("a pool");
    assert!(pool.execute(1).is_ok());
    assert!(pool.execute(2).is_ok());
    assert!(pool.begin_teardown());
    assert!(matches!(pool.receive(0), Directive::Run(1)));
    assert!(matches!(pool.receive(1), Directive::Run(2)));
    assert_eq!(pool.phase(), PoolPhase::Draining);
    assert!(pool.complete(1, JobOutcome::Completed));
    assert!(matches!(pool.receive(1), Directive::Exit));
    assert_eq!(pool.phase(), PoolPhase::Draining);
    assert_eq!(pool.live_workers(), 1);
    assert!(matches!(pool.receive(0), Directive::Wait));
    assert!(pool.complete(0, JobOutcome::Completed));
    assert!(matches!(pool.receive(0), Directive::Exit));
    assert_eq!(pool.phase(), PoolPhase::Stopped);
}

#[test]
fn begin_teardown_counts_once() {
    let mut pool: WorkerPool<u32> = WorkerPool::new(2).ok().expect("a pool");
    assert!(pool.begin_teardown());
    assert!(!pool.begin_teardown());
    assert_eq!(pool.phase(), PoolPhase::Draining);
    assert!(matches!(pool.receive(0), Directive::Exit));
    assert!(!pool.begin_teardown());
    assert!(matches!(pool.receive(1), Directive::Exit));
    assert_eq!(pool.phase(), PoolPhase::Stopped);
    assert!(!pool.begin_teardown());
    assert_eq!(pool.phase(), PoolPhase::Stopped);
    assert!(matches!(pool.receive(0), Directive::Exit));
    assert!(matches!(pool.receive(1), Directive::Exit));
    assert_eq!(pool.live_workers(), 0);
}

#[test]
fn stopped_worker_stays_stopped() {
    let mut pool: WorkerPool<u32> = WorkerPool::new(2).ok().expect("a pool");
    assert!(pool.begin_teardown());
    assert!(matches!(pool.receive(0), Directive::Exit));
    assert!(matches!(pool.receive(0), Directive::Exit));
    assert_eq!(pool.live_workers(), 1);
    assert_eq!(pool.phase(), PoolPhase::Draining);
    assert_eq!(pool.worker_state(0), Some(WorkerState::Stopped));
    assert_eq!(pool.worker_state(1), Some(WorkerState::Idle));
}
