//! The error of a push into a full queue.

use vstd::prelude::*;

verus! {

#[derive(Debug, Clone, Copy, PartialEq, Eq)]
pub enum PushError<T> {
    Full(T),
}

} // verus!
