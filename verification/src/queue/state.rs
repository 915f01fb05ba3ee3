//! Event loop lifecycle states.

use vstd::prelude::*;

verus! {

#[derive(Debug, Copy, Clone, PartialEq, Eq, Structural)]
pub enum State {
    Created,
    Running,
    Stopping,
    Stopped,
}

/// The place of a state in the order `Created < Running < Stopping < Stopped`.
pub open spec fn rank(s: State) -> int {
    match s {
        State::Created => 0,
        State::Running => 1,
        State::Stopping => 2,
        State::Stopped => 3,
    }
}

pub open spec fn posting_allowed(s: State) -> bool {
    s == State::Created || s == State::Running
}

impl State {
    /// Returns `true` while the state accepts new tasks.
    pub fn allows_post(self) -> (r: bool)
        ensures
            r == posting_allowed(self),
    {
        let data = match self {
            State::Created | State::Running => true,
            _ => false,
        };
        data
    }
}

} // verus!
