//! Request and response records of each storage action.

use vstd::prelude::*;

verus! {

#[derive(Debug)]
pub struct GetRequest {
    pub table: String,
    pub key: String,
}

#[derive(Debug)]
pub struct GetResponse {
    pub value: Option<Vec<u8>>,
}

#[derive(Debug)]
pub struct PutRequest {
    pub table: String,
    pub key: String,
    pub value: Vec<u8>,
}

#[derive(Debug)]
pub struct PutResponse {
    pub ok: bool,
}

#[derive(Debug)]
pub struct UpdateRequest {
    pub table: String,
    pub key: String,
    pub value: Vec<u8>,
}

#[derive(Debug)]
pub struct UpdateResponse {
    pub ok: bool,
}

#[derive(Debug)]
pub struct DeleteRequest {
    pub table: String,
    pub key: String,
}

#[derive(Debug)]
pub struct DeleteResponse {
    pub ok: bool,
}

#[derive(Debug)]
pub struct ContainsRequest {
    pub table: String,
    pub key: String,
}

#[derive(Debug)]
pub struct ContainsResponse {
    pub exists: bool,
}

#[derive(Debug)]
pub struct AddTableRequest {
    pub table: String,
}

#[derive(Debug)]
pub struct AddTableResponse {
    pub ok: bool,
}

#[derive(Debug)]
pub struct RemoveTableRequest {
    pub table: String,
}

#[derive(Debug)]
pub struct RemoveTableResponse {
    pub ok: bool,
}

#[derive(Debug)]
pub struct MetricsRequest {}

#[derive(Debug)]
pub struct MetricsResponse {
    pub reads: u64,
    pub writes: u64,
    pub deletes: u64,
    pub hits: u64,
    pub misses: u64,
    pub average_latency_ns: u64,
    pub memory_usage_bytes: u64,
}

} // verus!
