//! Lifecycle operations for the event loop kernel.

use vstd::prelude::*;
use crate::queue::state::{posting_allowed, rank, State};

verus! {

/// The state after `start`: a created loop starts running.
pub open spec fn after_start(s: State) -> State {
    if s == State::Created {
        State::Running
    } else {
        s
    }
}

/// The state after a stop request: a loop that never ran stops at once, a
/// running one drains first, a stop already under way is kept.
pub open spec fn after_stop(s: State) -> State {
    match s {
        State::Created => State::Stopped,
        State::Running => State::Stopping,
        _ => s,
    }
}

/// The state after the loop has run out of tasks or was told to stop.
pub open spec fn after_shutdown(s: State) -> State {
    if s == State::Stopping || s == State::Running {
        State::Stopped
    } else {
        s
    }
}

/// Neither `start` nor a stop request ever moves the kernel's lifecycle
/// back, a stopped loop stays stopped, and once posting is refused it stays
/// refused.
pub proof fn law_kernel_lifecycle_moves_forward(s: State)
    ensures
        rank(after_start(s)) >= rank(s),
        rank(after_stop(s)) >= rank(s),
        rank(after_shutdown(s)) >= rank(s),
        s == State::Stopped ==> after_start(s) == s && after_stop(s) == s && after_shutdown(s) == s,
        !posting_allowed(s) ==> !posting_allowed(after_start(s)) && !posting_allowed(after_stop(s))
            && !posting_allowed(after_shutdown(s)),
        !posting_allowed(after_stop(s)),
{
}

pub struct Lifecycle {
    pub state: State,
}

impl Lifecycle {
    pub fn new() -> (r: Self)
        ensures
            r.state == State::Created,
    {
        Lifecycle { state: State::Created }
    }

    pub fn start(&mut self)
        ensures
            final(self).state == after_start(old(self).state),
    {
        if self.state == State::Created {
            self.state = State::Running;
        }
    }

    pub fn request_stop(&mut self)
        ensures
            final(self).state == after_stop(old(self).state),
    {
        self.state = match self.state {
            State::Created => State::Stopped,
            State::Running => State::Stopping,
            State::Stopping | State::Stopped => self.state,
        };
    }

    /// Ends a run: a running or draining loop is stopped.
    pub fn complete_shutdown(&mut self)
        ensures
            final(self).state == after_shutdown(old(self).state),
    {
        if self.state == State::Stopping || self.state == State::Running {
            self.state = State::Stopped;
        }
    }

    /// Returns `true` while the loop should keep taking tasks.
    pub fn should_continue(&self) -> (r: bool)
        ensures
            r == (self.state == State::Running || self.state == State::Stopping),
    {
        self.state == State::Running || self.state == State::Stopping
    }

    pub fn state(&self) -> (r: State)
        ensures
            r == self.state,
    {
        self.state
    }

    pub fn is_running(&self) -> (r: bool)
        ensures
            r == (self.state == State::Running),
    {
        self.state == State::Running
    }

    pub fn is_stopped(&self) -> (r: bool)
        ensures
            r == (self.state == State::Stopped),
    {
        self.state == State::Stopped
    }

    pub fn allows_post(&self) -> (r: bool)
        ensures
            r == posting_allowed(self.state),
    {
        self.state.allows_post()
    }
}

} // verus!
