//! The decisions of a runner of the storage event loop: which tasks it
//! accepts and when it stops taking more.

use vstd::prelude::*;
use crate::events::lifecycle::Lifecycle;
use crate::events::producer::PushError;
use crate::events::queue::{is_full, pushed, SharedQueue};
use crate::events::{posting_allowed, State};

verus! {

/// Posts a task only while the lifecycle allows posting; a refused task is
/// handed back as `Full`, as a push into a full queue is.
pub fn post_task<T>(lifecycle: &Lifecycle, queue: &mut SharedQueue<T>, task: T) -> (r: Result<(), PushError<T>>)
    requires
        posting_allowed(lifecycle.current()) && !is_full(old(queue).cap(), old(queue).items().len() as int)
            ==> old(queue).counters().total_pushed < u64::MAX,
    ensures
        final(queue).cap() == old(queue).cap(),
        final(queue).runners() == old(queue).runners(),
        !posting_allowed(lifecycle.current()) ==> r == Err::<(), PushError<T>>(PushError::Full(task))
            && *final(queue) == *old(queue),
        posting_allowed(lifecycle.current()) && is_full(old(queue).cap(), old(queue).items().len() as int)
            ==> r == Err::<(), PushError<T>>(PushError::Full(task)) && *final(queue) == *old(queue),
        posting_allowed(lifecycle.current()) && !is_full(old(queue).cap(), old(queue).items().len() as int)
            ==> r is Ok && final(queue).items() == old(queue).items().push(task) && final(queue).counters()
            == pushed(old(queue).counters(), final(queue).items().len() as int),
{
    if !lifecycle.allows_post() {
        return Err(PushError::Full(task));
    }
    queue.push(task)
}

/// Whether a runner that has just dispatched a task takes another: it
/// stops once its lifecycle says so, and a draining loop stops as soon as
/// the queue is empty.
pub fn keeps_running(state: State, queue_empty: bool) -> (r: bool)
    ensures
        r == ((state == State::Running || state == State::Stopping) && !(state == State::Stopping
            && queue_empty)),
{
    match state {
        State::Running => true,
        State::Stopping => !queue_empty,
        _ => false,
    }
}

} // verus!
