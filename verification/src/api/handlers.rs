//! What each storage action does to the store, once its request is
//! decoded. Every action validates its request first; a refused request
//! leaves the store as it was.

use vstd::prelude::*;
use crate::api::{
    first, key_problem, metadata_problem, name_problem, refused_with, validate_key, validate_name,
    validate_not_metadata_table, validate_value, value_problem, ApiError,
};
use crate::api::requests::{
    AddTableRequest, AddTableResponse, ContainsRequest, ContainsResponse, DeleteRequest,
    DeleteResponse, GetRequest, GetResponse, MetricsRequest, MetricsResponse, PutRequest,
    PutResponse, RemoveTableRequest, RemoveTableResponse, UpdateRequest, UpdateResponse,
};
use crate::metrics::Metrics;
use crate::wal::test_store::{table_or_empty, StoreView, TestStore};

verus! {

pub open spec fn get_problem(req: &GetRequest) -> Option<Seq<char>> {
    first(name_problem("table"@, req.table@), key_problem(req.key@))
}

pub open spec fn put_problem(req: &PutRequest) -> Option<Seq<char>> {
    first(
        first(name_problem("table"@, req.table@), key_problem(req.key@)),
        first(value_problem(req.value@), metadata_problem(req.table@, "put"@)),
    )
}

pub open spec fn update_problem(req: &UpdateRequest) -> Option<Seq<char>> {
    first(
        first(name_problem("table"@, req.table@), key_problem(req.key@)),
        first(value_problem(req.value@), metadata_problem(req.table@, "update"@)),
    )
}

pub open spec fn delete_problem(req: &DeleteRequest) -> Option<Seq<char>> {
    first(
        first(name_problem("table"@, req.table@), key_problem(req.key@)),
        metadata_problem(req.table@, "delete"@),
    )
}

pub open spec fn contains_problem(req: &ContainsRequest) -> Option<Seq<char>> {
    first(name_problem("table"@, req.table@), key_problem(req.key@))
}

pub open spec fn add_table_problem(req: &AddTableRequest) -> Option<Seq<char>> {
    first(name_problem("table"@, req.table@), metadata_problem(req.table@, "add_table"@))
}

pub open spec fn remove_table_problem(req: &RemoveTableRequest) -> Option<Seq<char>> {
    first(name_problem("table"@, req.table@), metadata_problem(req.table@, "remove_table"@))
}

/// What a get answers: the value, `None` when the table lacks the key, or
/// the message it is refused with.
pub open spec fn get_outcome(s: StoreView, req: &GetRequest) -> Result<Option<Seq<u8>>, Seq<char>> {
    match get_problem(req) {
        Some(m) => Err(m),
        None => if !s.contains_key(req.table@) {
            Err("table not found"@)
        } else if s[req.table@].contains_key(req.key@) {
            Ok(Some(s[req.table@][req.key@]))
        } else {
            Ok(None)
        },
    }
}

/// The store after a put, or the message it is refused with.
pub open spec fn put_outcome(s: StoreView, req: &PutRequest) -> Result<StoreView, Seq<char>> {
    match put_problem(req) {
        Some(m) => Err(m),
        None => Ok(s.insert(req.table@, table_or_empty(s, req.table@).insert(req.key@, req.value@))),
    }
}

/// The store after an update, or the message it is refused with.
pub open spec fn update_outcome(s: StoreView, req: &UpdateRequest) -> Result<StoreView, Seq<char>> {
    match update_problem(req) {
        Some(m) => Err(m),
        None => if !s.contains_key(req.table@) {
            Err("table not found"@)
        } else {
            Ok(s.insert(req.table@, s[req.table@].insert(req.key@, req.value@)))
        },
    }
}

/// The store after a delete, or the message it is refused with.
pub open spec fn delete_outcome(s: StoreView, req: &DeleteRequest) -> Result<StoreView, Seq<char>> {
    match delete_problem(req) {
        Some(m) => Err(m),
        None => if !s.contains_key(req.table@) {
            Err("table not found"@)
        } else {
            Ok(s.insert(req.table@, s[req.table@].remove(req.key@)))
        },
    }
}

/// What a contains answers, or the message it is refused with.
pub open spec fn contains_outcome(s: StoreView, req: &ContainsRequest) -> Result<bool, Seq<char>> {
    match contains_problem(req) {
        Some(m) => Err(m),
        None => Ok(s.contains_key(req.table@) && s[req.table@].contains_key(req.key@)),
    }
}

/// The store after a table is added, or the message it is refused with.
pub open spec fn add_table_outcome(s: StoreView, req: &AddTableRequest) -> Result<StoreView, Seq<char>> {
    match add_table_problem(req) {
        Some(m) => Err(m),
        None => if s.contains_key(req.table@) {
            Err("table already exists"@)
        } else {
            Ok(s.insert(req.table@, Map::empty()))
        },
    }
}

/// Whether the table existed and the store after it is removed, or the
/// message the removal is refused with.
pub open spec fn remove_table_outcome(s: StoreView, req: &RemoveTableRequest) -> Result<
    (bool, StoreView),
    Seq<char>,
> {
    match remove_table_problem(req) {
        Some(m) => Err(m),
        None => Ok((s.contains_key(req.table@), s.remove(req.table@))),
    }
}

/// The value a response carries, as a sequence.
pub open spec fn value_view(v: Option<Vec<u8>>) -> Option<Seq<u8>> {
    match v {
        Some(x) => Some(x@),
        None => None,
    }
}

/// Reads a key: the value, or `None` when the table lacks the key.
pub fn get(store: &TestStore, request: &GetRequest) -> (r: Result<GetResponse, ApiError>)
    requires
        store.wf(),
    ensures
        match get_outcome(store@, request) {
            Err(m) => refused_with(r, m),
            Ok(v) => r matches Ok(resp) && value_view(resp.value) == v,
        },
{
    validate_name(request.table.as_str(), "table")?;
    validate_key(request.key.as_str())?;
    let table = match store.get(&request.table) {
        Some(t) => t,
        None => return Err(ApiError::InternalError(String::from_str("table not found"))),
    };
    let value = table.get(&request.key);
    Ok(GetResponse { value })
}

/// Writes a key, creating its table when needed.
pub fn put(store: &mut TestStore, request: PutRequest) -> (r: Result<PutResponse, ApiError>)
    requires
        old(store).wf(),
    ensures
        final(store).wf(),
        match put_outcome(old(store)@, &request) {
            Err(m) => refused_with(r, m) && final(store)@ == old(store)@,
            Ok(t) => r matches Ok(resp) && resp.ok && final(store)@ == t,
        },
{
    validate_name(request.table.as_str(), "table")?;
    validate_key(request.key.as_str())?;
    validate_value(request.value.as_slice())?;
    validate_not_metadata_table(request.table.as_str(), "put")?;
    store.insert(&request.table, request.key, request.value);
    Ok(PutResponse { ok: true })
}

/// Replaces the value of a key in an existing table.
pub fn update(store: &mut TestStore, request: UpdateRequest) -> (r: Result<UpdateResponse, ApiError>)
    requires
        old(store).wf(),
    ensures
        final(store).wf(),
        match update_outcome(old(store)@, &request) {
            Err(m) => refused_with(r, m) && final(store)@ == old(store)@,
            Ok(t) => r matches Ok(resp) && resp.ok && final(store)@ == t,
        },
{
    validate_name(request.table.as_str(), "table")?;
    validate_key(request.key.as_str())?;
    validate_value(request.value.as_slice())?;
    validate_not_metadata_table(request.table.as_str(), "update")?;
    if store.get(&request.table).is_none() {
        return Err(ApiError::InternalError(String::from_str("table not found")));
    }
    store.insert(&request.table, request.key, request.value);
    Ok(UpdateResponse { ok: true })
}

/// Removes a key from an existing table.
pub fn delete(store: &mut TestStore, request: &DeleteRequest) -> (r: Result<DeleteResponse, ApiError>)
    requires
        old(store).wf(),
    ensures
        final(store).wf(),
        match delete_outcome(old(store)@, request) {
            Err(m) => refused_with(r, m) && final(store)@ == old(store)@,
            Ok(t) => r matches Ok(resp) && resp.ok && final(store)@ == t,
        },
{
    validate_name(request.table.as_str(), "table")?;
    validate_key(request.key.as_str())?;
    validate_not_metadata_table(request.table.as_str(), "delete")?;
    if store.get(&request.table).is_none() {
        return Err(ApiError::InternalError(String::from_str("table not found")));
    }
    let _ = store.remove_key(&request.table, &request.key);
    Ok(DeleteResponse { ok: true })
}

/// Whether a table holds a key; a missing table holds none.
pub fn contains(store: &TestStore, request: &ContainsRequest) -> (r: Result<
    ContainsResponse,
    ApiError,
>)
    requires
        store.wf(),
    ensures
        match contains_outcome(store@, request) {
            Err(m) => refused_with(r, m),
            Ok(b) => r matches Ok(resp) && resp.exists == b,
        },
{
    validate_name(request.table.as_str(), "table")?;
    validate_key(request.key.as_str())?;
    let exists = match store.get(&request.table) {
        Some(t) => t.contains(&request.key),
        None => false,
    };
    Ok(ContainsResponse { exists })
}

/// Creates a new, empty table; one that exists already is refused.
pub fn add_table(store: &mut TestStore, request: &AddTableRequest) -> (r: Result<
    AddTableResponse,
    ApiError,
>)
    requires
        old(store).wf(),
    ensures
        final(store).wf(),
        match add_table_outcome(old(store)@, request) {
            Err(m) => refused_with(r, m) && final(store)@ == old(store)@,
            Ok(t) => r matches Ok(resp) && resp.ok && final(store)@ == t,
        },
{
    validate_name(request.table.as_str(), "table")?;
    validate_not_metadata_table(request.table.as_str(), "add_table")?;
    if store.get(&request.table).is_some() {
        return Err(ApiError::InternalError(String::from_str("table already exists")));
    }
    store.create(&request.table);
    Ok(AddTableResponse { ok: true })
}

/// Removes a table and its entries; the response says whether it existed.
pub fn remove_table(store: &mut TestStore, request: &RemoveTableRequest) -> (r: Result<
    RemoveTableResponse,
    ApiError,
>)
    requires
        old(store).wf(),
    ensures
        final(store).wf(),
        match remove_table_outcome(old(store)@, request) {
            Err(m) => refused_with(r, m) && final(store)@ == old(store)@,
            Ok((existed, t)) => r matches Ok(resp) && resp.ok == existed && final(store)@ == t,
        },
{
    validate_name(request.table.as_str(), "table")?;
    validate_not_metadata_table(request.table.as_str(), "remove_table")?;
    let existed = store.get(&request.table).is_some();
    store.remove(&request.table);
    Ok(RemoveTableResponse { ok: existed })
}

/// The response to a metrics request: the counters' snapshot.
pub fn metrics(m: &Metrics, _request: &MetricsRequest) -> (r: MetricsResponse)
    ensures
        ({
            let s = m.snapshot_view();
            &&& r.reads == s.reads
            &&& r.writes == s.writes
            &&& r.deletes == s.deletes
            &&& r.hits == s.hits
            &&& r.misses == s.misses
            &&& r.average_latency_ns == s.average_latency_ns
            &&& r.memory_usage_bytes == s.memory_usage_bytes
        }),
{
    let snapshot = m.snapshot();
    MetricsResponse {
        reads: snapshot.reads,
        writes: snapshot.writes,
        deletes: snapshot.deletes,
        hits: snapshot.hits,
        misses: snapshot.misses,
        average_latency_ns: snapshot.average_latency_ns,
        memory_usage_bytes: snapshot.memory_usage_bytes,
    }
}

} // verus!
