//! The records the event dispatcher logs for each storage event.

use vstd::prelude::*;

verus! {

pub const WAL_HEADER_SIZE: usize = 8;

/// A logged storage event: the raw event payload, the `table:key` it
/// concerns, and its operation code (1 insert, 2 delete, 3 update), when the
/// payload names them.
#[derive(Debug)]
pub struct WalEntry {
    pub payload: Vec<u8>,
    pub key: Option<Vec<u8>>,
    pub operation: Option<u8>,
    pub checksum: Option<u32>,
}

} // verus!
