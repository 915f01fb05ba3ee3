use storage::queue::event_queue::EventQueue;
use storage::queue::lifecycle::Lifecycle;
use storage::queue::State;

#[test]
fn kernel_lifecycle_stops_a_loop_that_never_ran() {
    let mut lifecycle = Lifecycle::new();
    assert_eq!(lifecycle.state(), State::Created);
    assert!(lifecycle.allows_post());
    lifecycle.request_stop();
    assert!(lifecycle.is_stopped());
    assert!(!lifecycle.allows_post());
    lifecycle.start();
    assert!(lifecycle.is_stopped());
}

#[test]
fn kernel_lifecycle_drains_a_running_loop() {
    let mut lifecycle = Lifecycle::new();
    lifecycle.start();
    assert!(lifecycle.is_running());
    assert!(lifecycle.should_continue());
    lifecycle.request_stop();
    assert_eq!(lifecycle.state(), State::Stopping);
    assert!(lifecycle.should_continue());
    lifecycle.complete_shutdown();
    assert!(lifecycle.is_stopped());
    assert!(!lifecycle.should_continue());
}

#[test]
fn kernel_states_accept_posts_until_a_stop() {
    assert!(State::Created.allows_post());
    assert!(State::Running.allows_post());
    assert!(!State::Stopping.allows_post());
    assert!(!State::Stopped.allows_post());
}

#[test]
fn event_queue_is_first_in_first_out() {
    let mut queue = EventQueue::new();
    assert!(queue.is_empty());
    queue.push(1);
    queue.push(2);
    assert!(!queue.is_empty());
    assert_eq!(queue.pop(), Some(1));
    assert_eq!(queue.pop(), Some(2));
    assert_eq!(queue.pop(), None);
}
