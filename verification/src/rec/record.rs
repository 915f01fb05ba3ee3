//! A stored value with its version.

use vstd::prelude::*;
use std::sync::Arc;

verus! {

/// A single stored value, along with its version.
#[derive(Debug)]
pub struct Record<V> {
    pub value: Arc<V>,
    pub version: u64,
}

impl<V> Record<V> {
    /// Creates a new record starting at version 1.
    pub fn new(value: V) -> (r: Self)
        ensures
            *r.value == value,
            r.version == 1,
    {
        Record { value: Arc::new(value), version: 1 }
    }

    /// Creates the next version of a record, succeeding `previous_version`.
    pub fn next(value: V, previous_version: u64) -> (r: Self)
        requires
            previous_version < u64::MAX,
        ensures
            *r.value == value,
            r.version == previous_version + 1,
    {
        Record { value: Arc::new(value), version: previous_version + 1 }
    }
}

impl<V> Clone for Record<V> {
    /// Another handle on the same value, at the same version.
    fn clone(&self) -> (r: Self)
        ensures
            r.value == self.value,
            r.version == self.version,
    {
        Record { value: Arc::clone(&self.value), version: self.version }
    }
}

} // verus!
