use std::sync::{Arc, Mutex};

use worker_pool::message::{JobOutcome, PoolError, WorkerAction};
use worker_pool::model::WorkerState;
use worker_pool::pool::ThreadPool;

type Job = Box<dyn FnOnce() + Send + 'static>;

fn state_of<J>(pool: &ThreadPool<J>, id: usize) -> WorkerState {
    pool.worker(id).unwrap().state()
}

/// Lets worker `id` take one message, if it can, and hands back the job.
fn take_job<J>(pool: &mut ThreadPool<J>, id: usize) -> Option<J> {
    pool.acquire(id);
    match pool.receive(id) {
        Some(WorkerAction::Run(job)) => Some(job),
        Some(WorkerAction::Exit) => None,
        None => None,
    }
}

/// Runs the workers in turn until none of them can take a step, and returns
/// what each received, in the order of receipt.
fn run_to_rest(pool: &mut ThreadPool<u32>) -> Vec<(usize, u32)> {
    let mut seen = Vec::new();
    loop {
        let mut moved = false;
        for id in 0..pool.size() {
            if pool.acquire(id) {
                moved = true;
            }
            match pool.receive(id) {
                Some(WorkerAction::Run(job)) => {
                    seen.push((id, job));
                    moved = true;
                }
                Some(WorkerAction::Exit) => moved = true,
                None => {}
            }
            if pool.finish(id, JobOutcome::Completed) {
                moved = true;
            }
        }
        if !moved {
            return seen;
        }
    }
}

#[test]
fn new_pool_has_all_workers_idle() {
    for size in [1usize, 2, 4, 17] {
        let pool: ThreadPool<u32> = ThreadPool::new(size).unwrap();
        assert_eq!(pool.size(), size);
        assert_eq!(pool.live_workers(), size);
        assert_eq!(pool.pending(), 0);
        assert!(pool.is_accepting());
        for id in 0..size {
            let worker = pool.worker(id).unwrap();
            assert_eq!(worker.id(), id);
            assert_eq!(worker.state(), WorkerState::Idle);
            assert!(worker.is_live());
            assert!(!worker.is_joined());
            assert_eq!(worker.faults(), 0);
        }
        assert!(pool.worker(size).is_none());
        assert!(!pool.is_shut_down());
    }
}

#[test]
fn new_pool_of_zero_is_refused() {
    let made: Result<ThreadPool<u32>, PoolError> = ThreadPool::new(0);
    assert!(matches!(made, Err(PoolError::InvalidPoolSize)));
}

#[test]
fn every_job_is_received_exactly_once() {
    let mut pool: ThreadPool<u32> = ThreadPool::new(3).unwrap();
    for job in 0..20u32 {
        assert_eq!(pool.execute(job), Ok(()));
    }
    assert_eq!(pool.pending(), 20);
    let seen = run_to_rest(&mut pool);
    let mut jobs: Vec<u32> = seen.iter().map(|(_, job)| *job).collect();
    assert_eq!(jobs.len(), 20);
    jobs.sort();
    assert_eq!(jobs, (0..20u32).collect::<Vec<u32>>());
    assert_eq!(pool.pending(), 0);
    assert_eq!(pool.live_workers(), 3);
}

#[test]
fn jobs_leave_the_queue_in_submission_order() {
    let mut pool: ThreadPool<&'static str> = ThreadPool::new(3).unwrap();
    pool.execute("J1").unwrap();
    pool.execute("J2").unwrap();
    pool.execute("J3").unwrap();
    // Worker 2 is first at the queue, then worker 0, then worker 1.
    assert_eq!(take_job(&mut pool, 2), Some("J1"));
    assert_eq!(take_job(&mut pool, 0), Some("J2"));
    assert_eq!(take_job(&mut pool, 1), Some("J3"));
    assert_eq!(pool.pending(), 0);
    // They finish in another order; that changes nothing.
    assert!(pool.finish(1, JobOutcome::Completed));
    assert!(pool.finish(2, JobOutcome::Completed));
    assert!(pool.finish(0, JobOutcome::Completed));
    assert_eq!(pool.live_workers(), 3);
}

#[test]
fn submissions_between_worker_steps_are_all_received() {
    let mut pool: ThreadPool<u32> = ThreadPool::new(2).unwrap();
    let mut seen = Vec::new();
    pool.execute(0).unwrap();
    assert!(pool.acquire(0));
    pool.execute(1).unwrap();
    assert_eq!(pool.receive(0), Some(WorkerAction::Run(0)));
    seen.push(0);
    pool.execute(2).unwrap();
    assert!(pool.acquire(1));
    pool.execute(3).unwrap();
    assert_eq!(pool.receive(1), Some(WorkerAction::Run(1)));
    seen.push(1);
    assert!(pool.finish(0, JobOutcome::Completed));
    pool.execute(4).unwrap();
    for (_, job) in run_to_rest(&mut pool) {
        seen.push(job);
    }
    assert_eq!(seen, vec![0, 1, 2, 3, 4]);
    assert_eq!(pool.pending(), 0);
}

#[test]
fn only_one_worker_is_inside_the_exclusive_region() {
    let mut pool: ThreadPool<u32> = ThreadPool::new(3).unwrap();
    assert!(pool.acquire(1));
    assert_eq!(state_of(&pool, 1), WorkerState::Dispatching);
    assert!(!pool.acquire(0));
    assert!(!pool.acquire(1));
    assert!(!pool.acquire(2));
    assert_eq!(state_of(&pool, 0), WorkerState::Idle);
    // The queue is empty: the worker inside would wait.
    assert_eq!(pool.receive(1), None);
    assert_eq!(state_of(&pool, 1), WorkerState::Dispatching);
    pool.execute(5).unwrap();
    // A worker outside the region gets nothing.
    assert_eq!(pool.receive(0), None);
    assert_eq!(pool.pending(), 1);
    assert_eq!(pool.receive(1), Some(WorkerAction::Run(5)));
    assert_eq!(state_of(&pool, 1), WorkerState::Running);
    // The region is free again.
    assert!(pool.acquire(0));
    assert!(!pool.acquire(7));
    assert_eq!(pool.receive(7), None);
}

#[test]
fn two_workers_run_their_jobs_side_by_side() {
    let mut pool: ThreadPool<&'static str> = ThreadPool::new(2).unwrap();
    pool.execute("slow").unwrap();
    pool.execute("quick").unwrap();
    assert_eq!(take_job(&mut pool, 0), Some("slow"));
    // The slow job is still running when the quick one is handed out.
    assert_eq!(take_job(&mut pool, 1), Some("quick"));
    assert_eq!(state_of(&pool, 0), WorkerState::Running);
    assert_eq!(state_of(&pool, 1), WorkerState::Running);
    assert!(pool.finish(1, JobOutcome::Completed));
    assert_eq!(state_of(&pool, 0), WorkerState::Running);
    assert_eq!(state_of(&pool, 1), WorkerState::Idle);
    assert!(pool.finish(0, JobOutcome::Completed));
}

#[test]
fn a_fault_leaves_the_worker_in_its_loop() {
    let mut pool: ThreadPool<u32> = ThreadPool::new(1).unwrap();
    pool.execute(1).unwrap();
    pool.execute(2).unwrap();
    assert_eq!(take_job(&mut pool, 0), Some(1));
    assert!(pool.finish(0, JobOutcome::Faulted));
    let worker = pool.worker(0).unwrap();
    assert_eq!(worker.state(), WorkerState::Idle);
    assert_eq!(worker.faults(), 1);
    assert_eq!(pool.live_workers(), 1);
    // The same worker takes the next job.
    assert_eq!(take_job(&mut pool, 0), Some(2));
    assert!(pool.finish(0, JobOutcome::Completed));
    assert_eq!(pool.worker(0).unwrap().faults(), 1);
    assert_eq!(pool.live_workers(), 1);
}

#[test]
fn finish_is_refused_unless_the_worker_runs_a_job() {
    let mut pool: ThreadPool<u32> = ThreadPool::new(2).unwrap();
    assert!(!pool.finish(0, JobOutcome::Completed));
    assert!(!pool.finish(2, JobOutcome::Completed));
    assert!(pool.acquire(0));
    assert!(!pool.finish(0, JobOutcome::Faulted));
    assert_eq!(state_of(&pool, 0), WorkerState::Dispatching);
    assert_eq!(pool.worker(0).unwrap().faults(), 0);
}

#[test]
fn shutdown_queues_one_stop_order_for_each_worker() {
    let mut pool: ThreadPool<u32> = ThreadPool::new(4).unwrap();
    pool.execute(10).unwrap();
    pool.execute(11).unwrap();
    assert_eq!(pool.shutdown(), Ok(()));
    assert!(!pool.is_accepting());
    assert_eq!(pool.pending(), 2 + 4);
    // The jobs come out first, then the orders to stop.
    assert_eq!(take_job(&mut pool, 3), Some(10));
    assert_eq!(take_job(&mut pool, 2), Some(11));
    assert!(pool.acquire(0));
    assert_eq!(pool.receive(0), Some(WorkerAction::Exit));
    assert_eq!(state_of(&pool, 0), WorkerState::Terminated);
    assert_eq!(pool.live_workers(), 3);
    assert_eq!(pool.pending(), 3);
}

#[test]
fn shutdown_terminates_every_worker() {
    let mut pool: ThreadPool<u32> = ThreadPool::new(3).unwrap();
    for job in 0..5u32 {
        pool.execute(job).unwrap();
    }
    assert_eq!(take_job(&mut pool, 1), Some(0));
    pool.shutdown().unwrap();
    // Nobody can be joined while in its loop.
    for id in 0..3 {
        assert!(!pool.join(id));
    }
    assert!(!pool.is_shut_down());
    let seen = run_to_rest(&mut pool);
    assert_eq!(seen.iter().map(|(_, job)| *job).collect::<Vec<u32>>(), vec![1, 2, 3, 4]);
    assert_eq!(pool.pending(), 0);
    assert_eq!(pool.live_workers(), 0);
    for id in 0..3 {
        assert_eq!(state_of(&pool, id), WorkerState::Terminated);
        assert!(pool.join(id));
        assert!(pool.worker(id).unwrap().is_joined());
        // A handle is used once.
        assert!(!pool.join(id));
    }
    assert!(!pool.join(3));
    assert!(pool.is_shut_down());
    // A terminated worker takes no further step.
    assert!(!pool.acquire(0));
    assert_eq!(pool.receive(0), None);
}

#[test]
fn nothing_is_accepted_after_shutdown() {
    let mut pool: ThreadPool<u32> = ThreadPool::new(2).unwrap();
    pool.execute(1).unwrap();
    pool.shutdown().unwrap();
    assert_eq!(pool.execute(2), Err(PoolError::ChannelClosed));
    assert_eq!(pool.pending(), 3);
    // A second shutdown is refused, and queues nothing.
    assert_eq!(pool.shutdown(), Err(PoolError::ChannelClosed));
    assert_eq!(pool.pending(), 3);
    let seen = run_to_rest(&mut pool);
    assert_eq!(seen.len(), 1);
    assert_eq!(seen[0].1, 1);
    assert_eq!(pool.live_workers(), 0);
    assert_eq!(pool.execute(3), Err(PoolError::ChannelClosed));
    assert_eq!(pool.pending(), 0);
}

#[test]
fn four_workers_run_eight_jobs_once_each() {
    let log: Arc<Mutex<Vec<usize>>> = Arc::new(Mutex::new(Vec::new()));
    let mut pool: ThreadPool<Job> = ThreadPool::new(4).unwrap();
    for index in 0..8usize {
        let log = Arc::clone(&log);
        let job: Job = Box::new(move || log.lock().unwrap().push(index));
        assert!(pool.execute(job).is_ok());
    }
    // The workers take their turns back to front.
    loop {
        let mut moved = false;
        for id in (0..pool.size()).rev() {
            moved |= pool.acquire(id);
            if let Some(WorkerAction::Run(job)) = pool.receive(id) {
                job();
                assert!(pool.finish(id, JobOutcome::Completed));
                moved = true;
            }
        }
        if !moved {
            break;
        }
    }
    let mut ran = log.lock().unwrap().clone();
    ran.sort();
    assert_eq!(ran, vec![0, 1, 2, 3, 4, 5, 6, 7]);

    pool.shutdown().unwrap();
    let mut exits = 0;
    while pool.live_workers() > 0 {
        // One worker was left inside the exclusive region; the others enter
        // when it has left.
        for id in 0..pool.size() {
            pool.acquire(id);
            if let Some(action) = pool.receive(id) {
                assert!(matches!(action, WorkerAction::Exit));
                assert!(pool.join(id));
                exits += 1;
            }
        }
    }
    assert_eq!(exits, 4);
    assert_eq!(pool.live_workers(), 0);
    assert_eq!(pool.pending(), 0);
    assert_eq!(log.lock().unwrap().len(), 8);
}
