//! A simple in-memory table store: named tables of string keys and byte
//! values. WAL replay applies entries to it.

use vstd::prelude::*;
use crate::assoc::{AssocList, WellFormed};

verus! {

/// The contents of a store: table name to (key to value).
pub type StoreView = Map<Seq<char>, Map<Seq<char>, Seq<u8>>>;

/// One named table: a map from keys to values.
pub struct TestTable {
    data: AssocList<Vec<u8>>,
}

impl View for TestTable {
    type V = Map<Seq<char>, Seq<u8>>;

    closed spec fn view(&self) -> Map<Seq<char>, Seq<u8>> {
        self.data@
    }
}

impl WellFormed for TestTable {
    closed spec fn well_formed(&self) -> bool {
        self.data.wf()
    }
}

impl TestTable {
    pub fn new() -> (r: Self)
        ensures
            r.well_formed(),
            r@ == Map::<Seq<char>, Seq<u8>>::empty(),
    {
        TestTable { data: AssocList::new() }
    }

    /// Returns the value for `key`, if present.
    pub fn get(&self, key: &String) -> (r: Option<Vec<u8>>)
        requires
            self.well_formed(),
        ensures
            match r {
                Some(v) => self@.contains_key(key@) && v@ == self@[key@],
                None => !self@.contains_key(key@),
            },
    {
        match self.data.get(key) {
            Some(v) => Some(v.clone()),
            None => None,
        }
    }

    /// Inserts `value` under `key`, replacing any existing entry.
    pub fn insert(&mut self, key: String, value: Vec<u8>)
        requires
            old(self).well_formed(),
        ensures
            final(self).well_formed(),
            final(self)@ == old(self)@.insert(key@, value@),
    {
        self.data.insert(key, value);
    }

    /// Removes `key`, if present, returning its value.
    pub fn remove(&mut self, key: &String) -> (r: Option<Vec<u8>>)
        requires
            old(self).well_formed(),
        ensures
            final(self).well_formed(),
            final(self)@ == old(self)@.remove(key@),
            match r {
                Some(v) => old(self)@.contains_key(key@) && v@ == old(self)@[key@],
                None => !old(self)@.contains_key(key@),
            },
    {
        self.data.remove(key)
    }

    /// Replaces the value stored at `key`; inserts it when `key` is absent.
    pub fn update(&mut self, key: String, value: Vec<u8>)
        requires
            old(self).well_formed(),
        ensures
            final(self).well_formed(),
            final(self)@ == old(self)@.insert(key@, value@),
    {
        self.data.insert(key, value);
    }

    /// Returns `true` if `key` is present.
    pub fn contains(&self, key: &String) -> (r: bool)
        requires
            self.well_formed(),
        ensures
            r == self@.contains_key(key@),
    {
        self.data.contains_key(key)
    }
}

/// A store of named tables.
pub struct TestStore {
    tables: AssocList<TestTable>,
}

impl View for TestStore {
    type V = StoreView;

    closed spec fn view(&self) -> StoreView {
        Map::new(
            |t: Seq<char>| self.tables@.contains_key(t),
            |t: Seq<char>| self.tables@[t],
        )
    }
}

impl TestStore {
    pub closed spec fn wf(&self) -> bool {
        self.tables.wf()
    }

    pub fn new() -> (r: Self)
        ensures
            r.wf(),
            r@ == StoreView::empty(),
    {
        let r = TestStore { tables: AssocList::new() };
        assert(r@ =~= StoreView::empty());
        r
    }

    /// Returns `true` if the store holds no tables.
    pub fn is_empty(&self) -> (r: bool)
        requires
            self.wf(),
        ensures
            r == (self@.dom().len() == 0),
    {
        self.len() == 0
    }

    /// Returns the number of tables currently stored.
    pub fn len(&self) -> (r: usize)
        requires
            self.wf(),
        ensures
            r == self@.dom().len(),
    {
        assert(self@.dom() =~= self.tables@.dom());
        self.tables.len()
    }

    /// Returns an existing named table, if present.
    pub fn get(&self, table: &String) -> (r: Option<&TestTable>)
        requires
            self.wf(),
        ensures
            match r {
                Some(t) => self@.contains_key(table@) && t@ == self@[table@] && t.well_formed(),
                None => !self@.contains_key(table@),
            },
    {
        self.tables.get(table)
    }

    /// Creates a new, empty named table unless one exists already.
    pub fn create(&mut self, table: &String)
        requires
            old(self).wf(),
        ensures
            final(self).wf(),
            final(self)@ == if old(self)@.contains_key(table@) {
                old(self)@
            } else {
                old(self)@.insert(table@, Map::empty())
            },
    {
        if !self.tables.contains_key(table) {
            self.tables.insert(table.clone(), TestTable::new());
        }
        assert(final(self)@ =~= if old(self)@.contains_key(table@) {
            old(self)@
        } else {
            old(self)@.insert(table@, Map::empty())
        });
    }

    /// Removes the named table and all of its entries; a no-op when absent.
    pub fn remove(&mut self, table: &String)
        requires
            old(self).wf(),
        ensures
            final(self).wf(),
            final(self)@ == old(self)@.remove(table@),
    {
        let _ = self.tables.remove(table);
        assert(final(self)@ =~= old(self)@.remove(table@));
    }

    /// Sets `key` to `value` in the named table, creating the table first
    /// when it is absent.
    pub fn insert(&mut self, table: &String, key: String, value: Vec<u8>)
        requires
            old(self).wf(),
        ensures
            final(self).wf(),
            final(self)@ == old(self)@.insert(
                table@,
                table_or_empty(old(self)@, table@).insert(key@, value@),
            ),
    {
        let mut t = match self.tables.remove(table) {
            Some(t) => t,
            None => TestTable::new(),
        };
        t.insert(key, value);
        self.tables.insert(table.clone(), t);
        assert(final(self)@ =~= old(self)@.insert(
            table@,
            table_or_empty(old(self)@, table@).insert(key@, value@),
        ));
    }

    /// Removes `key` from the named table, if the table exists, returning
    /// the value that was there.
    pub fn remove_key(&mut self, table: &String, key: &String) -> (r: Option<Vec<u8>>)
        requires
            old(self).wf(),
        ensures
            final(self).wf(),
            final(self)@ == if old(self)@.contains_key(table@) {
                old(self)@.insert(table@, old(self)@[table@].remove(key@))
            } else {
                old(self)@
            },
            match r {
                Some(v) => old(self)@.contains_key(table@) && old(self)@[table@].contains_key(key@)
                    && v@ == old(self)@[table@][key@],
                None => !(old(self)@.contains_key(table@) && old(self)@[table@].contains_key(
                    key@,
                )),
            },
    {
        match self.tables.remove(table) {
            Some(mut t) => {
                let r = t.remove(key);
                self.tables.insert(table.clone(), t);
                assert(final(self)@ =~= old(self)@.insert(
                    table@,
                    old(self)@[table@].remove(key@),
                ));
                r
            },
            None => {
                assert(final(self)@ =~= old(self)@);
                None
            },
        }
    }
}

/// The named table's contents, or the empty table when it is absent.
pub open spec fn table_or_empty(s: StoreView, table: Seq<char>) -> Map<Seq<char>, Seq<u8>> {
    if s.contains_key(table) {
        s[table]
    } else {
        Map::empty()
    }
}

} // verus!
