//! The lifecycle of the storage event loop.

use vstd::prelude::*;
pub use crate::events::State;
use crate::events::{posting_allowed, rank};

verus! {

/// How a stop is carried out: after the queued tasks, or at once.
#[derive(Debug, Copy, Clone, PartialEq, Eq, Structural)]
pub enum StopPolicy {
    Graceful,
    Immediate,
}

/// The state after `start`: a created loop starts running.
pub open spec fn after_start(s: State) -> State {
    if s == State::Created {
        State::Running
    } else {
        s
    }
}

/// The state after a stop request: a graceful stop drains first, an
/// immediate one stops at once; a stop already under way is kept.
pub open spec fn after_stop(s: State, policy: StopPolicy) -> State {
    match s {
        State::Created | State::Running => match policy {
            StopPolicy::Graceful => State::Stopping,
            StopPolicy::Immediate => State::Stopped,
        },
        _ => s,
    }
}

/// The state after the runner finishes.
pub open spec fn after_shutdown(s: State) -> State {
    if s == State::Stopping || s == State::Running {
        State::Stopped
    } else {
        s
    }
}

/// The operations that move a lifecycle.
pub enum LifecycleOp {
    Start,
    RequestStop(StopPolicy),
    CompleteShutdown,
}

pub open spec fn step(s: State, op: LifecycleOp) -> State {
    match op {
        LifecycleOp::Start => after_start(s),
        LifecycleOp::RequestStop(p) => after_stop(s, p),
        LifecycleOp::CompleteShutdown => after_shutdown(s),
    }
}

/// Every operation moves the lifecycle forward or leaves it where it is:
/// it never goes back to an earlier state, a stopped loop stays stopped,
/// and once posting is refused it stays refused.
pub proof fn law_lifecycle_moves_forward(s: State, op: LifecycleOp)
    ensures
        rank(step(s, op)) >= rank(s),
        s == State::Stopped ==> step(s, op) == State::Stopped,
        !posting_allowed(s) ==> !posting_allowed(step(s, op)),
{
}

/// A stop request is idempotent: asking again, with either policy, changes
/// nothing.
pub proof fn law_stop_request_idempotent(s: State, p: StopPolicy, q: StopPolicy)
    ensures
        after_stop(after_stop(s, p), q) == after_stop(s, p),
        !posting_allowed(after_stop(s, p)),
{
}

/// The state after a sequence of operations, in order.
pub open spec fn steps(s: State, ops: Seq<LifecycleOp>) -> State
    decreases ops.len(),
{
    if ops.len() == 0 {
        s
    } else {
        steps(step(s, ops[0]), ops.drop_first())
    }
}

/// Over any sequence of operations the lifecycle only moves forward: it
/// never returns to an earlier state, a stopped loop stays stopped, and a
/// loop that refuses posts keeps refusing them.
pub proof fn law_lifecycle_sequence_moves_forward(s: State, ops: Seq<LifecycleOp>)
    ensures
        rank(steps(s, ops)) >= rank(s),
        s == State::Stopped ==> steps(s, ops) == State::Stopped,
        !posting_allowed(s) ==> !posting_allowed(steps(s, ops)),
    decreases ops.len(),
{
    if ops.len() > 0 {
        law_lifecycle_moves_forward(s, ops[0]);
        law_lifecycle_sequence_moves_forward(step(s, ops[0]), ops.drop_first());
    }
}

/// The lifecycle state of the storage event loop.
#[derive(Debug)]
pub struct Lifecycle {
    state: State,
}

impl Lifecycle {
    pub closed spec fn current(&self) -> State {
        self.state
    }

    pub fn new() -> (r: Self)
        ensures
            r.current() == State::Created,
    {
        Lifecycle { state: State::Created }
    }

    pub fn start(&mut self)
        ensures
            final(self).current() == after_start(old(self).current()),
    {
        if self.state == State::Created {
            self.state = State::Running;
        }
    }

    pub fn request_stop(&mut self, policy: StopPolicy)
        ensures
            final(self).current() == after_stop(old(self).current(), policy),
    {
        self.state = match (self.state, policy) {
            (State::Created, StopPolicy::Graceful) => State::Stopping,
            (State::Created, StopPolicy::Immediate) => State::Stopped,
            (State::Running, StopPolicy::Graceful) => State::Stopping,
            (State::Running, StopPolicy::Immediate) => State::Stopped,
            (State::Stopping, _) | (State::Stopped, _) => self.state,
        };
    }

    pub fn complete_shutdown(&mut self)
        ensures
            final(self).current() == after_shutdown(old(self).current()),
    {
        if self.state == State::Stopping || self.state == State::Running {
            self.state = State::Stopped;
        }
    }

    /// Returns `true` while the runner should keep taking tasks.
    pub fn should_continue(&self) -> (r: bool)
        ensures
            r == (self.current() == State::Running || self.current() == State::Stopping),
    {
        match self.state {
            State::Running | State::Stopping => true,
            _ => false,
        }
    }

    pub fn is_created(&self) -> (r: bool)
        ensures
            r == (self.current() == State::Created),
    {
        self.state == State::Created
    }

    pub fn is_running(&self) -> (r: bool)
        ensures
            r == (self.current() == State::Running),
    {
        self.state == State::Running
    }

    pub fn is_stopped(&self) -> (r: bool)
        ensures
            r == (self.current() == State::Stopped),
    {
        self.state == State::Stopped
    }

    pub fn state(&self) -> (r: State)
        ensures
            r == self.current(),
    {
        self.state
    }

    pub fn allows_post(&self) -> (r: bool)
        ensures
            r == posting_allowed(self.current()),
    {
        self.state().allows_post()
    }
}

} // verus!
