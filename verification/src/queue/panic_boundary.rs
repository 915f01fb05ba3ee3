//! The report of a task that panicked.

use vstd::prelude::*;
use crate::text::concat;

verus! {

/// The line reported for a panicked task: its message where the panic
/// carried a text, a fixed line otherwise.
pub fn panic_message(message: Option<&str>) -> (r: String)
    ensures
        match message {
            Some(m) => r@ == "task panicked: "@ + m@,
            None => r@ == "task panicked with non-string payload"@,
        },
{
    match message {
        Some(m) => concat("task panicked: ", m),
        None => String::from_str("task panicked with non-string payload"),
    }
}

} // verus!
