//! Core runtime events emitted by the storage event loop.

use vstd::prelude::*;

verus! {

/// Immutable runtime events produced by the event loop kernel.
#[derive(Debug, PartialEq, Eq, Structural)]
pub enum RuntimeEvent {
    TaskCompleted,
    TaskFailed,
    QueueOverflow,
    ShutdownRequested,
}

} // verus!
