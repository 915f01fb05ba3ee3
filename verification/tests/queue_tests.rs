use storage::queue::dispatcher::Dispatcher;
use storage::queue::panic_boundary::panic_message;
use std::cell::RefCell;
use std::rc::Rc;

use storage::queue::event::RuntimeEvent;
use storage::queue::event_loop::{EventLoop, EventLoopError};
use storage::events::State;

/// A task for the kernel: it may post further tasks to the loop that runs
/// it, and reports whether it succeeded.
struct Job(Box<dyn FnOnce(&mut EventLoop<Job>) -> bool>);

fn job(f: impl FnOnce(&mut EventLoop<Job>) -> bool + 'static) -> Job {
    Job(Box::new(f))
}

fn push_to(buffer: &Rc<RefCell<Vec<&'static str>>>, value: &'static str) -> Job {
    let buffer = Rc::clone(buffer);
    job(move |_| {
        buffer.borrow_mut().push(value);
        true
    })
}

fn failing() -> Job {
    job(|_| false)
}

fn nothing() -> Job {
    job(|_| true)
}

/// Runs the loop as a runner does: hands each task out in turn, runs it and
/// reports how it ended, then shuts the loop down.
fn run(event_loop: &mut EventLoop<Job>) -> Result<(), EventLoopError> {
    event_loop.begin_run()?;
    while let Some(task) = event_loop.next_task() {
        let ok = (task.0)(event_loop);
        event_loop.emit(if ok { RuntimeEvent::TaskCompleted } else { RuntimeEvent::TaskFailed });
    }
    event_loop.end_run();
    Ok(())
}

#[test]
fn executes_tasks_in_order() {
    let buffer = Rc::new(RefCell::new(Vec::new()));
    let mut event_loop = EventLoop::new();
    event_loop.post(push_to(&buffer, "Hello")).unwrap();
    event_loop.post(push_to(&buffer, "World")).unwrap();
    run(&mut event_loop).unwrap();
    assert_eq!(buffer.borrow().as_slice(), ["Hello", "World"]);
}

#[test]
fn tasks_execute_exactly_once() {
    let counter = Rc::new(RefCell::new(0));
    let mut event_loop = EventLoop::new();
    let counter1 = Rc::clone(&counter);
    event_loop
        .post(job(move |_| {
            *counter1.borrow_mut() += 1;
            true
        }))
        .unwrap();
    run(&mut event_loop).unwrap();
    let result = run(&mut event_loop);
    assert!(matches!(result, Err(_)));
    assert_eq!(*counter.borrow(), 1);
}

#[test]
fn catches_panics_and_continues() {
    let buffer = Rc::new(RefCell::new(Vec::new()));
    let mut event_loop = EventLoop::new();
    event_loop.post(failing()).unwrap();
    event_loop.post(push_to(&buffer, "Alive")).unwrap();
    run(&mut event_loop).unwrap();
    assert_eq!(buffer.borrow().as_slice(), ["Alive"]);
}

#[test]
fn nested_posting_during_execution_works() {
    let buffer = Rc::new(RefCell::new(Vec::new()));
    let mut event_loop = EventLoop::new();
    let buffer_for_task = Rc::clone(&buffer);
    event_loop
        .post(job(move |handle| {
            handle.post(push_to(&buffer_for_task, "nested")).unwrap();
            true
        }))
        .unwrap();
    run(&mut event_loop).unwrap();
    assert_eq!(buffer.borrow().as_slice(), ["nested"]);
}

#[test]
fn graceful_stop_finishes_remaining_tasks() {
    let buffer = Rc::new(RefCell::new(Vec::new()));
    let mut event_loop = EventLoop::new();
    event_loop.post(push_to(&buffer, "first")).unwrap();
    event_loop.post(push_to(&buffer, "second")).unwrap();
    event_loop.stop();
    run(&mut event_loop).unwrap();
    assert_eq!(buffer.borrow().as_slice(), ["first", "second"]);
}

#[test]
fn immediate_stop_drops_remaining_tasks() {
    let buffer = Rc::new(RefCell::new(Vec::new()));
    let mut event_loop = EventLoop::new();
    let buffer_for_task = Rc::clone(&buffer);
    event_loop
        .post(job(move |handle| {
            handle.post(push_to(&buffer_for_task, "dropped")).unwrap();
            handle.post(push_to(&buffer_for_task, "kept")).unwrap();
            true
        }))
        .unwrap();
    event_loop.stop_immediate();
    let result = run(&mut event_loop);
    assert!(matches!(result, Err(_)));
    assert!(buffer.borrow().is_empty());
}

#[test]
fn runtime_events_are_emitted_for_task_failures_and_shutdown() {
    let mut event_loop = EventLoop::new();
    event_loop.post(failing()).unwrap();
    event_loop.post(nothing()).unwrap();
    event_loop.stop();
    run(&mut event_loop).unwrap();
    let events = event_loop.take_events();
    assert!(events.contains(&RuntimeEvent::TaskFailed));
    assert!(events.contains(&RuntimeEvent::TaskCompleted));
    assert!(events.contains(&RuntimeEvent::ShutdownRequested));
}

#[test]
fn stop_prevents_posts_after_stopping() {
    let mut event_loop = EventLoop::new();
    run(&mut event_loop).unwrap();
    event_loop.stop();
    assert!(matches!(event_loop.post(nothing()), Err(_)));
}

#[test]
fn run_returns_error_when_rerun_after_stop() {
    let mut event_loop = EventLoop::new();
    run(&mut event_loop).unwrap();
    let result = run(&mut event_loop);
    assert!(matches!(result, Err(EventLoopError::InvalidStateForRun(State::Stopped))));
}

#[test]
fn post_fails_when_stop_requested_before_run() {
    let mut event_loop = EventLoop::new();
    event_loop.stop();
    assert!(matches!(event_loop.post(nothing()), Err(_)));
}

#[test]
fn no_tasks_leak_after_panic() {
    let mut event_loop = EventLoop::new();
    event_loop.post(failing()).unwrap();
    event_loop.post(nothing()).unwrap();
    run(&mut event_loop).unwrap();
    assert!(event_loop.post(nothing()).is_err());
}

#[test]
fn event_loop_new_is_created_state() {
    let mut event_loop: EventLoop<Job> = EventLoop::new();
    assert!(event_loop.take_events().is_empty());
    assert!(event_loop.next_task().is_none());
}

#[test]
fn refused_post_is_recorded_as_overflow() {
    let mut event_loop = EventLoop::new();
    event_loop.stop_immediate();
    assert!(matches!(event_loop.post(nothing()), Err(EventLoopError::InvalidStateForPost)));
    let events = event_loop.take_events();
    assert_eq!(events, vec![RuntimeEvent::ShutdownRequested, RuntimeEvent::QueueOverflow]);
    assert!(event_loop.take_events().is_empty());
}

#[test]
fn events_follow_task_outcomes_in_order() {
    let mut event_loop = EventLoop::new();
    event_loop.post(nothing()).unwrap();
    event_loop.post(failing()).unwrap();
    run(&mut event_loop).unwrap();
    assert_eq!(event_loop.take_events(), vec![RuntimeEvent::TaskCompleted, RuntimeEvent::TaskFailed]);
}

#[test]
fn no_task_is_handed_out_before_the_run() {
    let buffer = Rc::new(RefCell::new(Vec::new()));
    let mut event_loop = EventLoop::new();
    event_loop.post(push_to(&buffer, "later")).unwrap();
    assert!(event_loop.next_task().is_none());
    run(&mut event_loop).unwrap();
    assert_eq!(buffer.borrow().as_slice(), ["later"]);
}

#[test]
fn dispatcher_outcomes_and_panic_reports() {
    let d = Dispatcher::new();
    assert_eq!(d.outcome(true), RuntimeEvent::TaskCompleted);
    assert_eq!(d.outcome(false), RuntimeEvent::TaskFailed);
    assert_eq!(panic_message(Some("boom")), "task panicked: boom");
    assert_eq!(panic_message(None), "task panicked with non-string payload");
}
