//! The error of a receive that waited in vain.

use vstd::prelude::*;

verus! {

#[derive(Debug, Clone, Copy, PartialEq, Eq, Structural)]
pub enum RecvTimeoutError {
    Timeout,
}

} // verus!
