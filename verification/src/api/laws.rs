//! What the storage actions promise of each other.

use vstd::prelude::*;
use crate::api::handlers::{
    add_table_outcome, delete_outcome, get_outcome, get_problem, put_outcome, remove_table_outcome,
    update_outcome,
};
use crate::api::requests::{
    AddTableRequest, DeleteRequest, GetRequest, PutRequest, RemoveTableRequest, UpdateRequest,
};
use crate::wal::test_store::StoreView;

verus! {

/// A get of the key that an accepted put wrote reads back the value it
/// wrote.
pub proof fn law_get_after_put(s: StoreView, put: &PutRequest, get: &GetRequest)
    requires
        put_outcome(s, put) is Ok,
        get.table@ == put.table@,
        get.key@ == put.key@,
    ensures
        get_outcome(put_outcome(s, put)->Ok_0, get) == Ok::<Option<Seq<u8>>, Seq<char>>(
            Some(put.value@),
        ),
{
}

/// A get of the key that an accepted update wrote reads back the value it
/// wrote.
pub proof fn law_get_after_update(s: StoreView, update: &UpdateRequest, get: &GetRequest)
    requires
        update_outcome(s, update) is Ok,
        get.table@ == update.table@,
        get.key@ == update.key@,
    ensures
        get_outcome(update_outcome(s, update)->Ok_0, get) == Ok::<Option<Seq<u8>>, Seq<char>>(
            Some(update.value@),
        ),
{
}

/// After an accepted delete, a get of that key finds nothing.
pub proof fn law_get_after_delete(s: StoreView, delete: &DeleteRequest, get: &GetRequest)
    requires
        delete_outcome(s, delete) is Ok,
        get.table@ == delete.table@,
        get.key@ == delete.key@,
    ensures
        get_outcome(delete_outcome(s, delete)->Ok_0, get) == Ok::<Option<Seq<u8>>, Seq<char>>(
            None,
        ),
{
}

/// A put changes what no other key of an existing table reads.
pub proof fn law_put_keeps_other_keys(s: StoreView, put: &PutRequest, get: &GetRequest)
    requires
        put_outcome(s, put) is Ok,
        get.table@ != put.table@ || get.key@ != put.key@,
        get.table@ != put.table@ || s.contains_key(put.table@),
    ensures
        get_outcome(put_outcome(s, put)->Ok_0, get) == get_outcome(s, get),
{
}

/// Every write to the reserved metadata table is refused, whatever the
/// store holds.
pub proof fn law_metadata_table_is_reserved(
    s: StoreView,
    put: &PutRequest,
    update: &UpdateRequest,
    delete: &DeleteRequest,
    add: &AddTableRequest,
    remove: &RemoveTableRequest,
)
    requires
        put.table@ == "__metadata"@,
        update.table@ == "__metadata"@,
        delete.table@ == "__metadata"@,
        add.table@ == "__metadata"@,
        remove.table@ == "__metadata"@,
    ensures
        put_outcome(s, put) is Err,
        update_outcome(s, update) is Err,
        delete_outcome(s, delete) is Err,
        add_table_outcome(s, add) is Err,
        remove_table_outcome(s, remove) is Err,
{
}

/// A table that was just added cannot be added again.
pub proof fn law_add_table_twice(s: StoreView, add: &AddTableRequest)
    requires
        add_table_outcome(s, add) is Ok,
    ensures
        add_table_outcome(add_table_outcome(s, add)->Ok_0, add) == Err::<StoreView, Seq<char>>(
            "table already exists"@,
        ),
{
}

/// A removed table is gone: a get in it is refused as a missing table.
pub proof fn law_get_after_remove_table(s: StoreView, remove: &RemoveTableRequest, get: &GetRequest)
    requires
        remove_table_outcome(s, remove) is Ok,
        get.table@ == remove.table@,
        get_problem(get) is None,
    ensures
        get_outcome(remove_table_outcome(s, remove)->Ok_0.1, get) == Err::<Option<Seq<u8>>, Seq<char>>(
            "table not found"@,
        ),
{
}

/// An accepted update changes what no other key reads: every other key of
/// its table, and every other table, reads as before.
pub proof fn law_update_keeps_other_keys(s: StoreView, update: &UpdateRequest, get: &GetRequest)
    requires
        update_outcome(s, update) is Ok,
        get.table@ != update.table@ || get.key@ != update.key@,
    ensures
        get_outcome(update_outcome(s, update)->Ok_0, get) == get_outcome(s, get),
{
}

/// An accepted delete changes what no other key reads: every other key of
/// its table, and every other table, reads as before.
pub proof fn law_delete_keeps_other_keys(s: StoreView, delete: &DeleteRequest, get: &GetRequest)
    requires
        delete_outcome(s, delete) is Ok,
        get.table@ != delete.table@ || get.key@ != delete.key@,
    ensures
        get_outcome(delete_outcome(s, delete)->Ok_0, get) == get_outcome(s, get),
{
}

/// Removing a table leaves every other table as it was: it is there
/// exactly when it was, with the same contents, and every read in it
/// answers as before.
pub proof fn law_remove_table_keeps_other_tables(
    s: StoreView,
    remove: &RemoveTableRequest,
    t: Seq<char>,
    get: &GetRequest,
)
    requires
        remove_table_outcome(s, remove) is Ok,
        t != remove.table@,
        get.table@ != remove.table@,
    ensures
        ({
            let after = remove_table_outcome(s, remove)->Ok_0.1;
            &&& after.contains_key(t) == s.contains_key(t)
            &&& s.contains_key(t) ==> after[t] == s[t]
            &&& !after.contains_key(remove.table@)
            &&& get_outcome(after, get) == get_outcome(s, get)
        }),
{
}

/// Adding a table leaves every other table as it was, and the new table
/// starts empty: a read in it finds nothing.
pub proof fn law_add_table_keeps_other_tables(
    s: StoreView,
    add: &AddTableRequest,
    t: Seq<char>,
    get: &GetRequest,
)
    requires
        add_table_outcome(s, add) is Ok,
        t != add.table@,
    ensures
        ({
            let after = add_table_outcome(s, add)->Ok_0;
            &&& after.contains_key(t) == s.contains_key(t)
            &&& s.contains_key(t) ==> after[t] == s[t]
            &&& get.table@ != add.table@ ==> get_outcome(after, get) == get_outcome(s, get)
            &&& get.table@ == add.table@ && get_problem(get) is None ==> get_outcome(after, get)
                == Ok::<Option<Seq<u8>>, Seq<char>>(None)
        }),
{
}

} // verus!
