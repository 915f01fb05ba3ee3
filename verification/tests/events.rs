use storage::events::runner::{keeps_running, post_task};
use storage::events::dispatcher::Dispatcher;
use storage::events::lifecycle::{Lifecycle, StopPolicy};
use storage::events::producer::PushError;
use storage::events::queue::SharedQueue;
use storage::events::State;

#[test]
fn lifecycle_runs_then_drains_then_stops() {
    let mut lifecycle = Lifecycle::new();
    assert!(lifecycle.is_created());
    assert!(lifecycle.allows_post());
    assert!(!lifecycle.should_continue());
    lifecycle.start();
    assert!(lifecycle.is_running());
    assert!(lifecycle.should_continue());
    lifecycle.request_stop(StopPolicy::Graceful);
    assert_eq!(lifecycle.state(), State::Stopping);
    assert!(lifecycle.should_continue());
    assert!(!lifecycle.allows_post());
    lifecycle.complete_shutdown();
    assert!(lifecycle.is_stopped());
    assert!(!lifecycle.should_continue());
}

#[test]
fn immediate_stop_of_a_created_lifecycle_stops_it() {
    let mut lifecycle = Lifecycle::new();
    lifecycle.request_stop(StopPolicy::Immediate);
    assert!(lifecycle.is_stopped());
    lifecycle.start();
    assert!(lifecycle.is_stopped());
}

#[test]
fn graceful_stop_before_start_drains() {
    let mut lifecycle = Lifecycle::new();
    lifecycle.request_stop(StopPolicy::Graceful);
    assert_eq!(lifecycle.state(), State::Stopping);
    lifecycle.start();
    assert_eq!(lifecycle.state(), State::Stopping);
}

#[test]
fn second_stop_request_changes_nothing() {
    let mut lifecycle = Lifecycle::new();
    lifecycle.start();
    lifecycle.request_stop(StopPolicy::Graceful);
    lifecycle.request_stop(StopPolicy::Immediate);
    assert_eq!(lifecycle.state(), State::Stopping);
}

#[test]
fn only_created_and_running_accept_posts() {
    assert!(State::Created.allows_post());
    assert!(State::Running.allows_post());
    assert!(!State::Stopping.allows_post());
    assert!(!State::Stopped.allows_post());
}

#[test]
fn bounded_queue_refuses_when_full() {
    let mut queue = SharedQueue::with_capacity(2);
    assert_eq!(queue.capacity(), 2);
    assert!(queue.push("a").is_ok());
    assert!(queue.push("b").is_ok());
    assert_eq!(queue.push("c"), Err(PushError::Full("c")));
    assert_eq!(queue.len(), 2);
    assert_eq!(queue.try_recv(), Some("a"));
    assert!(queue.push("c").is_ok());
    assert_eq!(queue.try_recv(), Some("b"));
    assert_eq!(queue.try_recv(), Some("c"));
    assert_eq!(queue.try_recv(), None);
    assert!(queue.is_empty());
    let stats = queue.stats();
    assert_eq!(stats.total_pushed, 3);
    assert_eq!(stats.total_popped, 3);
    assert_eq!(stats.max_queue_size, 2);
}

#[test]
fn zero_capacity_is_unbounded() {
    let mut queue = SharedQueue::with_capacity(0);
    for i in 0..100u32 {
        assert!(queue.push(i).is_ok());
    }
    assert_eq!(queue.len(), 100);
    assert_eq!(queue.try_recv(), Some(0));
}

#[test]
fn new_queue_is_empty_and_unbounded() {
    let mut queue: SharedQueue<u8> = SharedQueue::new();
    assert_eq!(queue.capacity(), usize::MAX);
    assert_eq!(queue.active_runners(), 0);
    assert!(queue.try_recv().is_none());
    assert_eq!(queue.stats().total_popped, 0);
}

#[test]
fn runners_are_counted() {
    let mut queue: SharedQueue<u8> = SharedQueue::new();
    queue.runner_started();
    queue.runner_started();
    queue.runner_finished();
    assert_eq!(queue.active_runners(), 1);
}

#[test]
fn dispatcher_reads_operation_and_key() {
    let dispatcher = Dispatcher::new();
    let entry = dispatcher.wal_entry(b"insert:users:alice".to_vec());
    assert_eq!(entry.payload, b"insert:users:alice".to_vec());
    assert_eq!(entry.operation, Some(1));
    assert_eq!(entry.key, Some(b"users:alice".to_vec()));
    assert_eq!(entry.checksum, None);

    let entry = dispatcher.wal_entry(b"delete:t:k:extra".to_vec());
    assert_eq!(entry.operation, Some(2));
    assert_eq!(entry.key, Some(b"t:k".to_vec()));

    let entry = dispatcher.wal_entry(b"update:t:k".to_vec());
    assert_eq!(entry.operation, Some(3));
}

#[test]
fn dispatcher_leaves_unknown_events_unparsed() {
    let dispatcher = Dispatcher::new();
    let entry = dispatcher.wal_entry(b"rename:t:k".to_vec());
    assert_eq!(entry.operation, None);
    assert_eq!(entry.key, Some(b"t:k".to_vec()));

    let entry = dispatcher.wal_entry(b"insert-only".to_vec());
    assert_eq!(entry.operation, None);
    assert_eq!(entry.key, None);
}

#[test]
fn post_task_respects_the_lifecycle() {
    let mut lifecycle = Lifecycle::new();
    let mut queue = SharedQueue::with_capacity(1);
    assert!(post_task(&lifecycle, &mut queue, 1u8).is_ok());
    assert_eq!(post_task(&lifecycle, &mut queue, 2u8), Err(PushError::Full(2)));
    assert_eq!(queue.try_recv(), Some(1));
    lifecycle.request_stop(StopPolicy::Graceful);
    assert_eq!(post_task(&lifecycle, &mut queue, 3u8), Err(PushError::Full(3)));
    assert!(queue.is_empty());
    assert_eq!(queue.stats().total_pushed, 1);
}

#[test]
fn runner_stops_when_draining_empties_the_queue() {
    assert!(keeps_running(State::Running, true));
    assert!(keeps_running(State::Stopping, false));
    assert!(!keeps_running(State::Stopping, true));
    assert!(!keeps_running(State::Stopped, false));
    assert!(!keeps_running(State::Created, false));
}
