//! The storage event loop: its states, its bounded task queue and the
//! handles that push to and pop from it.

pub mod consumer;
pub mod dispatcher;
pub mod lifecycle;
pub mod producer;
pub mod queue;
pub mod runner;

use vstd::prelude::*;

verus! {

/// Events reported by the event loop.
#[derive(Debug, PartialEq, Eq, Structural)]
pub enum RuntimeEvent {
    TaskCompleted,
    TaskFailed,
    QueueOverflow,
    ShutdownRequested,
}

/// A unit of work for the storage event loop: an id and an opaque payload.
#[derive(Debug)]
pub struct Task {
    pub id: u64,
    pub payload: Vec<u8>,
}

/// The states of an event loop's lifecycle, in the order it moves through
/// them.
#[derive(Debug, Copy, Clone, PartialEq, Eq, Structural)]
pub enum State {
    Created,
    Running,
    Stopping,
    Stopped,
}

/// The place of a state in the order `Created < Running < Stopping < Stopped`.
pub open spec fn rank(s: State) -> int {
    match s {
        State::Created => 0,
        State::Running => 1,
        State::Stopping => 2,
        State::Stopped => 3,
    }
}

/// A state accepts new tasks before any stop was requested.
pub open spec fn posting_allowed(s: State) -> bool {
    s == State::Created || s == State::Running
}

impl State {
    /// Returns `true` while the state accepts new tasks.
    pub fn allows_post(self) -> (r: bool)
        ensures
            r == posting_allowed(self),
    {
        let data = match self {
            State::Created | State::Running => true,
            _ => false,
        };
        data
    }
}

} // verus!
