//! How the kernel accounts for a task once it has run.

use vstd::prelude::*;
use crate::queue::event::RuntimeEvent;

verus! {

/// Turns the outcome of running a task into the runtime event the kernel
/// records. Running the task itself, inside a panic boundary, is the
/// runner's part.
pub struct Dispatcher;

impl Dispatcher {
    pub fn new() -> Self {
        Dispatcher
    }

    /// The event for a task that completed, or that panicked.
    pub fn outcome(&self, completed: bool) -> (r: RuntimeEvent)
        ensures
            completed ==> r == RuntimeEvent::TaskCompleted,
            !completed ==> r == RuntimeEvent::TaskFailed,
    {
        if completed {
            RuntimeEvent::TaskCompleted
        } else {
            RuntimeEvent::TaskFailed
        }
    }
}

} // verus!
