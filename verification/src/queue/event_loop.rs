//! The decisions of the single-threaded event loop kernel.
//!
//! The kernel owns the task queue, the lifecycle and the record of runtime
//! events. Running a task is left to the caller: it asks the kernel for the
//! next task, runs it, and reports how it ended.

use vstd::prelude::*;
use crate::events::lifecycle::{after_start, after_shutdown, after_stop, Lifecycle, StopPolicy};
use crate::events::{posting_allowed, State};
use crate::queue::event::RuntimeEvent;
use crate::queue::event_queue::EventQueue;

verus! {

/// A graceful stop of a loop that has not stopped yet lets it drain: a run
/// that follows still hands out the queued tasks. An immediate stop ends it:
/// a loop stopped before it ran can no longer run, and a running one hands
/// out no further task.
pub proof fn law_stop_policies(s: State)
    requires
        s == State::Created || s == State::Running,
    ensures
        after_start(after_stop(s, StopPolicy::Graceful)) == State::Stopping,
        after_stop(s, StopPolicy::Immediate) == State::Stopped,
        !posting_allowed(after_stop(s, StopPolicy::Graceful)),
{
}

#[derive(Debug)]
pub enum EventLoopError {
    InvalidStateForPost,
    InvalidStateForRun(State),
}

pub struct EventLoop<T> {
    lifecycle: Lifecycle,
    queue: EventQueue<T>,
    events: Vec<RuntimeEvent>,
}

impl<T> EventLoop<T> {
    pub closed spec fn state(&self) -> State {
        self.lifecycle.current()
    }

    /// The tasks waiting to run, in the order they were posted.
    pub closed spec fn tasks(&self) -> Seq<T> {
        self.queue.tasks()
    }

    /// The runtime events recorded and not yet taken.
    pub closed spec fn events(&self) -> Seq<RuntimeEvent> {
        self.events@
    }

    pub fn new() -> (r: Self)
        ensures
            r.state() == State::Created,
            r.tasks() == Seq::<T>::empty(),
            r.events() == Seq::<RuntimeEvent>::empty(),
    {
        EventLoop { lifecycle: Lifecycle::new(), queue: EventQueue::new(), events: Vec::new() }
    }

    /// Queues a task while the lifecycle allows posting; otherwise records a
    /// queue overflow and refuses it.
    pub fn post(&mut self, task: T) -> (r: Result<(), EventLoopError>)
        ensures
            final(self).state() == old(self).state(),
            posting_allowed(old(self).state()) ==> r is Ok && final(self).tasks() == old(self).tasks().push(task) && final(self).events() == old(self).events(),
            !posting_allowed(old(self).state()) ==> (r matches Err(
                EventLoopError::InvalidStateForPost,
            ) && final(self).tasks() == old(self).tasks() && final(self).events() == old(self).events().push(RuntimeEvent::QueueOverflow)),
    {
        if self.lifecycle.allows_post() {
            self.queue.push(task);
            Ok(())
        } else {
            self.events.push(RuntimeEvent::QueueOverflow);
            Err(EventLoopError::InvalidStateForPost)
        }
    }

    /// Starts a run: a created loop starts running; a stopped one cannot
    /// run again.
    pub fn begin_run(&mut self) -> (r: Result<(), EventLoopError>)
        ensures
            final(self).tasks() == old(self).tasks(),
            final(self).events() == old(self).events(),
            old(self).state() == State::Stopped ==> (r matches Err(
                EventLoopError::InvalidStateForRun(s),
            ) && s == State::Stopped && final(self).state() == State::Stopped),
            old(self).state() != State::Stopped ==> r is Ok && final(self).state() == after_start(
                old(self).state(),
            ),
    {
        let state = self.lifecycle.state();
        if state == State::Created {
            self.lifecycle.start();
        } else if state == State::Stopped {
            return Err(EventLoopError::InvalidStateForRun(state));
        }
        Ok(())
    }

    /// The next task to run: the oldest queued one, while the loop is
    /// running or draining.
    pub fn next_task(&mut self) -> (r: Option<T>)
        ensures
            final(self).state() == old(self).state(),
            final(self).events() == old(self).events(),
            ({
                let go = old(self).state() == State::Running || old(self).state()
                    == State::Stopping;
                if go && old(self).tasks().len() > 0 {
                    r == Some(old(self).tasks()[0]) && final(self).tasks() == old(self).tasks().drop_first()
                } else {
                    r is None && final(self).tasks() == old(self).tasks()
                }
            }),
    {
        if !self.lifecycle.should_continue() {
            return None;
        }
        self.queue.pop()
    }

    /// Records how a task ended.
    pub fn emit(&mut self, event: RuntimeEvent)
        ensures
            final(self).state() == old(self).state(),
            final(self).tasks() == old(self).tasks(),
            final(self).events() == old(self).events().push(event),
    {
        self.events.push(event);
    }

    /// Ends a run.
    pub fn end_run(&mut self)
        ensures
            final(self).state() == after_shutdown(old(self).state()),
            final(self).tasks() == old(self).tasks(),
            final(self).events() == old(self).events(),
    {
        self.lifecycle.complete_shutdown();
    }

    /// Requests a graceful stop: queued tasks still run.
    pub fn stop(&mut self)
        ensures
            final(self).state() == after_stop(old(self).state(), StopPolicy::Graceful),
            final(self).tasks() == old(self).tasks(),
            final(self).events() == old(self).events().push(RuntimeEvent::ShutdownRequested),
    {
        self.emit(RuntimeEvent::ShutdownRequested);
        self.lifecycle.request_stop(StopPolicy::Graceful);
    }

    /// Requests an immediate stop: no further task runs.
    pub fn stop_immediate(&mut self)
        ensures
            final(self).state() == after_stop(old(self).state(), StopPolicy::Immediate),
            final(self).tasks() == old(self).tasks(),
            final(self).events() == old(self).events().push(RuntimeEvent::ShutdownRequested),
    {
        self.emit(RuntimeEvent::ShutdownRequested);
        self.lifecycle.request_stop(StopPolicy::Immediate);
    }

    /// Hands out the recorded events and forgets them.
    pub fn take_events(&mut self) -> (r: Vec<RuntimeEvent>)
        ensures
            r@ == old(self).events(),
            final(self).events() == Seq::<RuntimeEvent>::empty(),
            final(self).state() == old(self).state(),
            final(self).tasks() == old(self).tasks(),
    {
        let mut out = Vec::new();
        std::mem::swap(&mut out, &mut self.events);
        out
    }
}

} // verus!
