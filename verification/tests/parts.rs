use worker_pool::channel::Channel;
use worker_pool::message::{JobOutcome, Message, PoolError, WorkerAction};
use worker_pool::model::WorkerState;
use worker_pool::worker::Worker;

fn job_of(message: Option<Message<u32>>) -> Option<u32> {
    match message {
        Some(Message::NewJob(job)) => Some(job),
        _ => None,
    }
}

#[test]
fn message_turns_into_its_action() {
    assert!(matches!(Message::NewJob(3u32).into_action(), WorkerAction::Run(3)));
    assert!(matches!(Message::<u32>::Terminate.into_action(), WorkerAction::Exit));
}

#[test]
fn channel_delivers_in_sending_order() {
    let mut channel: Channel<u32> = Channel::new();
    assert!(channel.is_open());
    assert!(channel.is_empty());
    assert_eq!(channel.holder(), None);
    for job in [5u32, 3, 9] {
        assert_eq!(channel.send(Message::NewJob(job)), Ok(()));
    }
    assert_eq!(channel.len(), 3);
    assert!(channel.acquire(0));
    assert_eq!(job_of(channel.receive(0)), Some(5));
    assert!(channel.acquire(1));
    assert_eq!(job_of(channel.receive(1)), Some(3));
    assert!(channel.acquire(0));
    assert_eq!(job_of(channel.receive(0)), Some(9));
    assert!(channel.is_empty());
}

#[test]
fn channel_receive_needs_the_exclusive_region() {
    let mut channel: Channel<u32> = Channel::new();
    channel.send(Message::NewJob(1)).unwrap();
    // Nobody is inside.
    assert!(channel.receive(0).is_none());
    assert!(channel.acquire(4));
    assert_eq!(channel.holder(), Some(4));
    // Somebody else is inside.
    assert!(!channel.acquire(0));
    assert!(channel.receive(0).is_none());
    assert_eq!(channel.len(), 1);
    assert_eq!(job_of(channel.receive(4)), Some(1));
    assert_eq!(channel.holder(), None);
    // On an empty queue the worker stays inside.
    assert!(channel.acquire(2));
    assert!(channel.receive(2).is_none());
    assert_eq!(channel.holder(), Some(2));
}

#[test]
fn closed_channel_refuses_to_send_and_still_delivers() {
    let mut channel: Channel<u32> = Channel::new();
    channel.send(Message::NewJob(1)).unwrap();
    channel.send(Message::Terminate).unwrap();
    channel.close();
    assert!(!channel.is_open());
    assert_eq!(channel.send(Message::NewJob(2)), Err(PoolError::ChannelClosed));
    assert_eq!(channel.send(Message::Terminate), Err(PoolError::ChannelClosed));
    assert_eq!(channel.len(), 2);
    assert!(channel.acquire(0));
    assert_eq!(job_of(channel.receive(0)), Some(1));
    assert!(channel.acquire(0));
    assert!(matches!(channel.receive(0), Some(Message::Terminate)));
    assert!(channel.is_empty());
}

#[test]
fn worker_goes_round_its_loop() {
    let mut worker = Worker::new(6);
    assert_eq!(worker.id(), 6);
    assert_eq!(worker.state(), WorkerState::Idle);
    worker.enter();
    assert_eq!(worker.state(), WorkerState::Dispatching);
    assert!(matches!(worker.dispatch(Message::NewJob("job")), WorkerAction::Run("job")));
    assert_eq!(worker.state(), WorkerState::Running);
    worker.finish(JobOutcome::Completed);
    assert_eq!(worker.state(), WorkerState::Idle);
    assert_eq!(worker.faults(), 0);
    assert!(worker.is_live());
    worker.enter();
    assert!(matches!(worker.dispatch(Message::<&str>::Terminate), WorkerAction::Exit));
    assert_eq!(worker.state(), WorkerState::Terminated);
    assert!(!worker.is_live());
}

#[test]
fn worker_counts_its_faults() {
    let mut worker = Worker::new(0);
    for round in 1..=3u64 {
        worker.enter();
        worker.dispatch(Message::NewJob(round));
        worker.finish(JobOutcome::Faulted);
        assert_eq!(worker.state(), WorkerState::Idle);
        assert_eq!(worker.faults(), round);
    }
    worker.enter();
    worker.dispatch(Message::NewJob(4u64));
    worker.finish(JobOutcome::Completed);
    assert_eq!(worker.faults(), 3);
}

#[test]
fn worker_handle_is_used_once_after_exit() {
    let mut worker = Worker::new(1);
    assert!(!worker.join());
    worker.enter();
    assert!(!worker.join());
    worker.dispatch(Message::<u32>::Terminate);
    assert!(!worker.is_joined());
    assert!(worker.join());
    assert!(worker.is_joined());
    assert!(!worker.join());
    assert!(worker.is_joined());
}
