//! One table of the concurrent store: string keys to versioned values, kept
//! in a `dashmap::DashMap`.

use vstd::prelude::*;
use std::sync::Arc;
use dashmap::DashMap;
use crate::rec::record::Record;

verus! {

#[verifier::external_type_specification]
#[verifier::external_body]
#[verifier::reject_recursive_types(K)]
#[verifier::reject_recursive_types(V)]
#[verifier::reject_recursive_types(S)]
pub struct ExDashMap<K, V, S>(DashMap<K, V, S>);

/// What a `DashMap` of records holds: each key's value and version.
pub uninterp spec fn records(m: DashMap<String, Record<Vec<u8>>>) -> Map<Seq<char>, (Seq<u8>, u64)>;

/// The contents of an empty map.
pub open spec fn no_records() -> Map<Seq<char>, (Seq<u8>, u64)> {
    Map::empty()
}

/// A record as a value and a version.
pub open spec fn record_view(r: Record<Vec<u8>>) -> (Seq<u8>, u64) {
    ((*r.value)@, r.version)
}

/// `DashMap::new`: an empty map.
#[verifier::external_body]
fn map_new() -> (r: DashMap<String, Record<Vec<u8>>>)
    ensures
        records(r) == no_records(),
{
    DashMap::new()
}

/// `DashMap::len`: the number of pairs in the map.
#[verifier::external_body]
fn map_len(m: &DashMap<String, Record<Vec<u8>>>) -> (r: usize)
    ensures
        r == records(*m).dom().len(),
{
    m.len()
}

/// `DashMap::is_empty`: whether the map holds no pair.
#[verifier::external_body]
fn map_is_empty(m: &DashMap<String, Record<Vec<u8>>>) -> (r: bool)
    ensures
        r == (records(*m).dom() =~= Set::<Seq<char>>::empty()),
{
    m.is_empty()
}

/// `DashMap::get`: the record's value (another handle on it) and version,
/// read under the guard. Keys are found by `String` equality, which is
/// equality of their characters.
#[verifier::external_body]
fn map_get(m: &DashMap<String, Record<Vec<u8>>>, key: &String) -> (r: Option<(Arc<Vec<u8>>, u64)>)
    ensures
        match r {
            Some((v, version)) => records(*m).contains_key(key@) && ((*v)@, version) == records(
                *m,
            )[key@],
            None => !records(*m).contains_key(key@),
        },
{
    match m.get(key) {
        Some(entry) => Some((Arc::clone(&entry.value().value), entry.value().version)),
        None => None,
    }
}

/// `DashMap::insert`: sets the key's record, replacing any earlier one.
#[verifier::external_body]
fn map_insert(m: &mut DashMap<String, Record<Vec<u8>>>, key: String, rec: Record<Vec<u8>>)
    ensures
        records(*final(m)) == records(*old(m)).insert(key@, record_view(rec)),
{
    m.insert(key, rec);
}

/// `DashMap::remove`: takes the key's record out, if it is there.
#[verifier::external_body]
fn map_remove(m: &mut DashMap<String, Record<Vec<u8>>>, key: &String) -> (r: Option<
    Record<Vec<u8>>,
>)
    ensures
        records(*final(m)) == records(*old(m)).remove(key@),
        match r {
            Some(rec) => records(*old(m)).contains_key(key@) && record_view(rec) == records(
                *old(m),
            )[key@],
            None => !records(*old(m)).contains_key(key@),
        },
{
    match m.remove(key) {
        Some((_, rec)) => Some(rec),
        None => None,
    }
}

/// `DashMap::contains_key`.
#[verifier::external_body]
fn map_contains(m: &DashMap<String, Record<Vec<u8>>>, key: &String) -> (r: bool)
    ensures
        r == records(*m).contains_key(key@),
{
    m.contains_key(key)
}

/// `DashMap::clone`: a map with the same pairs.
#[verifier::external_body]
fn map_clone(m: &DashMap<String, Record<Vec<u8>>>) -> (r: DashMap<String, Record<Vec<u8>>>)
    ensures
        records(r) == records(*m),
{
    m.clone()
}

/// A table: keys to values, each value with the version of its last write.
#[derive(Debug)]
pub struct Collection {
    map: DashMap<String, Record<Vec<u8>>>,
}

impl View for Collection {
    type V = Map<Seq<char>, (Seq<u8>, u64)>;

    closed spec fn view(&self) -> Map<Seq<char>, (Seq<u8>, u64)> {
        records(self.map)
    }
}

impl Collection {
    /// Creates a new, empty collection.
    pub fn new() -> (r: Self)
        ensures
            r@ == Map::<Seq<char>, (Seq<u8>, u64)>::empty(),
    {
        Collection { map: map_new() }
    }

    /// Returns the number of entries currently stored.
    pub fn len(&self) -> (r: usize)
        ensures
            r == self@.dom().len(),
    {
        map_len(&self.map)
    }

    /// Returns `true` if the store holds no entries.
    pub fn is_empty(&self) -> (r: bool)
        ensures
            r == (self@.dom() =~= Set::<Seq<char>>::empty()),
    {
        map_is_empty(&self.map)
    }

    /// Returns the value for `key`, if present.
    pub fn get(&self, key: &String) -> (r: Option<Arc<Vec<u8>>>)
        ensures
            match r {
                Some(v) => self@.contains_key(key@) && (*v)@ == self@[key@].0,
                None => !self@.contains_key(key@),
            },
    {
        match map_get(&self.map, key) {
            Some((value, _)) => Some(value),
            None => None,
        }
    }

    /// Inserts `value` under `key` as a fresh record at version 1,
    /// replacing any existing entry.
    pub fn insert(&mut self, key: String, value: Vec<u8>)
        ensures
            final(self)@ == old(self)@.insert(key@, (value@, 1u64)),
    {
        map_insert(&mut self.map, key, Record::new(value));
    }

    /// Removes `key`, if present, returning its value.
    pub fn remove(&mut self, key: &String) -> (r: Option<Arc<Vec<u8>>>)
        ensures
            final(self)@ == old(self)@.remove(key@),
            match r {
                Some(v) => old(self)@.contains_key(key@) && (*v)@ == old(self)@[key@].0,
                None => !old(self)@.contains_key(key@),
            },
    {
        match map_remove(&mut self.map, key) {
            Some(rec) => Some(rec.value),
            None => None,
        }
    }

    /// Replaces the value stored at `key`, one version past the previous
    /// one; behaves like `insert` when `key` did not exist.
    pub fn update(&mut self, key: String, value: Vec<u8>)
        requires
            old(self)@.contains_key(key@) ==> old(self)@[key@].1 < u64::MAX,
        ensures
            final(self)@ == old(self)@.insert(
                key@,
                (
                    value@,
                    if old(self)@.contains_key(key@) {
                        (old(self)@[key@].1 + 1) as u64
                    } else {
                        1u64
                    },
                ),
            ),
    {
        match map_get(&self.map, &key) {
            Some((_, version)) => {
                map_insert(&mut self.map, key, Record::next(value, version));
            },
            None => {
                map_insert(&mut self.map, key, Record::new(value));
            },
        }
    }

    /// The version of the value at `key`, if present.
    pub fn version(&self, key: &String) -> (r: Option<u64>)
        ensures
            match r {
                Some(v) => self@.contains_key(key@) && v == self@[key@].1,
                None => !self@.contains_key(key@),
            },
    {
        match map_get(&self.map, key) {
            Some((_, version)) => Some(version),
            None => None,
        }
    }

    /// Returns `true` if `key` is present.
    pub fn contains(&self, key: &String) -> (r: bool)
        ensures
            r == self@.contains_key(key@),
    {
        map_contains(&self.map, key)
    }
}

impl Clone for Collection {
    /// A collection with the same entries.
    fn clone(&self) -> (r: Self)
        ensures
            r@ == self@,
    {
        Collection { map: map_clone(&self.map) }
    }
}

impl Default for Collection {
    fn default() -> (r: Self)
        ensures
            r@ == Map::<Seq<char>, (Seq<u8>, u64)>::empty(),
    {
        Self::new()
    }
}

} // verus!
