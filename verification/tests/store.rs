use std::sync::Arc;

use storage::api::handlers::{add_table, contains, delete, get, metrics, put, remove_table, update};
use storage::api::requests::{
    AddTableRequest, ContainsRequest, DeleteRequest, GetRequest, MetricsRequest, PutRequest,
    RemoveTableRequest, UpdateRequest,
};
use storage::api::{
    is_metadata_table, validate_key, validate_name, validate_not_metadata_table, validate_value,
    ApiError, METADATA_TABLE,
};
use storage::config::{Node, NodeConfig};
use storage::index::{IndexValue, Indexable};
use storage::metadata::seed_metadata;
use storage::metrics::{ByteSized, Metrics};
use storage::rec::collections::Collection;
use storage::rec::record::Record;
use storage::wal::test_store::TestStore;

fn message<T: std::fmt::Debug>(r: Result<T, ApiError>) -> String {
    match r {
        Err(ApiError::InternalError(m)) => m,
        Ok(v) => panic!("expected a refusal, got {:?}", v),
    }
}

fn put_request(table: &str, key: &str, value: &[u8]) -> PutRequest {
    PutRequest { table: table.to_string(), key: key.to_string(), value: value.to_vec() }
}

fn get_request(table: &str, key: &str) -> GetRequest {
    GetRequest { table: table.to_string(), key: key.to_string() }
}

#[test]
fn metadata_table_is_reserved_and_duplicate_create_is_rejected() {
    let mut store = TestStore::new();

    let result = add_table(&mut store, &AddTableRequest { table: "__metadata".to_string() });
    assert!(matches!(result, Err(ApiError::InternalError(_))), "reserved metadata table create should fail");

    let result = add_table(&mut store, &AddTableRequest { table: "users".to_string() });
    assert!(result.is_ok(), "first table creation should succeed");

    let result = add_table(&mut store, &AddTableRequest { table: "users".to_string() });
    assert!(matches!(result, Err(ApiError::InternalError(_))), "duplicate table creation should fail");

    let result = put(&mut store, put_request("__metadata", "node_id", b"xyz"));
    assert!(matches!(result, Err(ApiError::InternalError(_))), "writes to reserved metadata table should fail");
}

#[test]
fn put_then_get_roundtrip() {
    let mut store = TestStore::new();
    let put_response = put(&mut store, put_request("default", "hello", b"world")).unwrap();
    assert!(put_response.ok);
    let get_response = get(&store, &get_request("default", "hello")).unwrap();
    assert_eq!(get_response.value, Some(b"world".to_vec()));
}

#[test]
fn refusal_messages_name_the_problem() {
    let mut store = TestStore::new();
    assert_eq!(message(add_table(&mut store, &AddTableRequest { table: METADATA_TABLE.to_string() })),
        "add_table is not allowed on the reserved metadata table");
    assert_eq!(message(add_table(&mut store, &AddTableRequest { table: "t".to_string() }).and_then(|_| {
        add_table(&mut store, &AddTableRequest { table: "t".to_string() })
    })), "table already exists");
    assert_eq!(message(put(&mut store, put_request("", "k", b"v"))), "table cannot be empty");
    assert_eq!(message(put(&mut store, put_request("bad table", "k", b"v"))), "table contains invalid characters");
    assert_eq!(message(put(&mut store, put_request("t", "", b"v"))), "key cannot be empty");
    assert_eq!(message(put(&mut store, put_request("t", "k/1", b"v"))), "key contains invalid characters");
    assert_eq!(message(put(&mut store, put_request("t", &"k".repeat(257), b"v"))), "key is too long: max 256 bytes");
    assert_eq!(message(put(&mut store, put_request(&"t".repeat(129), "k", b"v"))), "table is too long: max 128 bytes");
    assert_eq!(message(put(&mut store, put_request("t", "k", &vec![0u8; 4194305]))), "value is too large: max 4194304 bytes");
    assert_eq!(message(get(&store, &get_request("missing", "k"))), "table not found");
    assert_eq!(message(delete(&mut store, &DeleteRequest { table: "__metadata".to_string(), key: "k".to_string() })),
        "delete is not allowed on the reserved metadata table");
}

#[test]
fn refused_requests_leave_the_store_unchanged() {
    let mut store = TestStore::new();
    put(&mut store, put_request("t", "k", b"v")).unwrap();
    assert!(put(&mut store, put_request("t", "", b"w")).is_err());
    assert!(update(&mut store, UpdateRequest { table: "missing".to_string(), key: "k".to_string(), value: b"w".to_vec() }).is_err());
    assert_eq!(store.len(), 1);
    assert_eq!(get(&store, &get_request("t", "k")).unwrap().value, Some(b"v".to_vec()));
}

#[test]
fn update_replaces_and_delete_removes() {
    let mut store = TestStore::new();
    put(&mut store, put_request("t", "k", b"v1")).unwrap();
    let r = update(&mut store, UpdateRequest { table: "t".to_string(), key: "k".to_string(), value: b"v2".to_vec() }).unwrap();
    assert!(r.ok);
    assert_eq!(get(&store, &get_request("t", "k")).unwrap().value, Some(b"v2".to_vec()));
    let c = contains(&store, &ContainsRequest { table: "t".to_string(), key: "k".to_string() }).unwrap();
    assert!(c.exists);
    let d = delete(&mut store, &DeleteRequest { table: "t".to_string(), key: "k".to_string() }).unwrap();
    assert!(d.ok);
    assert_eq!(get(&store, &get_request("t", "k")).unwrap().value, None);
    let c = contains(&store, &ContainsRequest { table: "t".to_string(), key: "k".to_string() }).unwrap();
    assert!(!c.exists);
    let c = contains(&store, &ContainsRequest { table: "nowhere".to_string(), key: "k".to_string() }).unwrap();
    assert!(!c.exists);
}

#[test]
fn remove_table_reports_whether_it_existed() {
    let mut store = TestStore::new();
    add_table(&mut store, &AddTableRequest { table: "t".to_string() }).unwrap();
    let r = remove_table(&mut store, &RemoveTableRequest { table: "t".to_string() }).unwrap();
    assert!(r.ok);
    let r = remove_table(&mut store, &RemoveTableRequest { table: "t".to_string() }).unwrap();
    assert!(!r.ok);
    assert!(store.is_empty());
    assert_eq!(message(get(&store, &get_request("t", "k"))), "table not found");
}

#[test]
fn validators_accept_and_refuse() {
    assert!(validate_name("users_1.v-2", "table").is_ok());
    assert_eq!(message(validate_name("", "column")), "column cannot be empty");
    assert!(validate_key(&"k".repeat(256)).is_ok());
    assert!(validate_value(&vec![0u8; 4194304]).is_ok());
    assert!(is_metadata_table("__metadata"));
    assert!(!is_metadata_table("__metadata_"));
    assert_eq!(message(validate_not_metadata_table("__metadata", "put")), "put is not allowed on the reserved metadata table");
    assert!(validate_not_metadata_table("users", "put").is_ok());
}

#[test]
fn metrics_response_reports_the_snapshot() {
    let mut m = Metrics::new();
    m.record_read(true, 100);
    m.record_read(false, 300);
    m.record_write(64, 200);
    m.record_delete(-16, 0);
    let r = metrics(&m, &MetricsRequest {});
    assert_eq!(r.reads, 2);
    assert_eq!(r.hits, 1);
    assert_eq!(r.misses, 1);
    assert_eq!(r.writes, 1);
    assert_eq!(r.deletes, 1);
    assert_eq!(r.average_latency_ns, 150);
    assert_eq!(r.memory_usage_bytes, 48);
}

#[test]
fn metrics_average_is_zero_before_any_sample_and_memory_never_negative() {
    let mut m = Metrics::new();
    let s = m.snapshot();
    assert_eq!(s.average_latency_ns, 0);
    m.update_memory_usage(-10);
    assert_eq!(m.snapshot().memory_usage_bytes, 0);
    m.record_latency(7);
    m.record_latency(8);
    assert_eq!(m.snapshot().average_latency_ns, 7);
}

#[test]
fn hits_and_misses_add_up_to_reads() {
    let mut m = Metrics::new();
    for i in 0..10u64 {
        m.record_read(i % 3 == 0, i);
        m.record_write(1, i);
    }
    let s = m.snapshot();
    assert_eq!(s.hits + s.misses, s.reads);
    assert_eq!(s.reads, 10);
}

#[test]
fn records_start_at_version_one_and_count_up() {
    let r = Record::new(5u32);
    assert_eq!(*r.value, 5);
    assert_eq!(r.version, 1);
    let n = Record::next(6u32, r.version);
    assert_eq!(n.version, 2);
    let c = n.clone();
    assert!(Arc::ptr_eq(&c.value, &n.value));
    assert_eq!(c.version, 2);
}

#[test]
fn collection_insert_get_update_remove() {
    let mut c = Collection::new();
    assert!(c.is_empty());
    c.insert("a".to_string(), b"1".to_vec());
    assert_eq!(c.len(), 1);
    assert_eq!(c.get(&"a".to_string()).map(|v| (*v).clone()), Some(b"1".to_vec()));
    assert_eq!(c.version(&"a".to_string()), Some(1));
    c.update("a".to_string(), b"2".to_vec());
    assert_eq!(c.get(&"a".to_string()).map(|v| (*v).clone()), Some(b"2".to_vec()));
    assert_eq!(c.version(&"a".to_string()), Some(2));
    c.insert("a".to_string(), b"2".to_vec());
    assert_eq!(c.version(&"a".to_string()), Some(1));
    c.update("a".to_string(), b"2".to_vec());
    c.update("b".to_string(), b"3".to_vec());
    assert_eq!(c.version(&"b".to_string()), Some(1));
    assert_eq!(c.version(&"zz".to_string()), None);
    assert_eq!(c.len(), 2);
    assert!(c.contains(&"b".to_string()));
    let copy = c.clone();
    assert_eq!(c.remove(&"a".to_string()).map(|v| (*v).clone()), Some(b"2".to_vec()));
    assert_eq!(c.remove(&"a".to_string()), None);
    assert!(!c.contains(&"a".to_string()));
    assert!(copy.contains(&"a".to_string()));
    assert_eq!(Collection::default().len(), 0);
}

#[test]
fn index_values_convert_from_plain_values() {
    assert_eq!(IndexValue::from("x".to_string()), IndexValue::Str("x".to_string()));
    assert_eq!(IndexValue::from("y"), IndexValue::Str("y".to_string()));
    assert_eq!(IndexValue::from(7i64), IndexValue::Int(7));
    assert_eq!(IndexValue::from(-3i32), IndexValue::Int(-3));
    assert_eq!(IndexValue::from(true), IndexValue::Bool(true));
    assert_eq!(b"bytes".to_vec().index_value("any"), None);
    assert_eq!(5i32.index_value("any"), None);
}

const CONFIG: &str = "# node settings\n\nNodeAddress = 10.0.0.1:7000\nStatus=active\r\n  Region = eu-west  \nID = node-1\nAnchorAddress = 10.0.0.2:7000\nUnknown = ignored\n";

#[test]
fn config_parses_known_keys() {
    let c = NodeConfig::parse(CONFIG).unwrap();
    assert_eq!(c.node_address, "10.0.0.1:7000");
    assert_eq!(c.status, "active");
    assert_eq!(c.region, "eu-west");
    assert_eq!(c.id, "node-1");
    assert_eq!(c.anchor_address, "10.0.0.2:7000");
}

#[test]
fn config_last_setting_wins_and_value_may_hold_equals() {
    let c = NodeConfig::parse("ID = a\nID = b=c\n").unwrap();
    assert_eq!(c.id, "b=c");
    assert_eq!(c.region, "");
}

#[test]
fn config_errors() {
    assert_eq!(NodeConfig::parse("ID = x\nnot a pair\n").unwrap_err(), "Invalid config line: not a pair");
    assert_eq!(NodeConfig::parse("Region = eu\n").unwrap_err(), "ID is required in config.trench");
    assert_eq!(NodeConfig::parse("").unwrap_err(), "ID is required in config.trench");
    assert_eq!(NodeConfig::parse("ID =   \n").unwrap_err(), "ID is required in config.trench");
}

#[test]
fn node_file_parses_with_its_own_messages() {
    assert!(Node::parse(CONFIG).is_ok());
    assert_eq!(Node::parse("garbage").unwrap_err(), "Invalid config line");
    assert_eq!(Node::parse("# only a comment").unwrap_err(), "ID is required create the identifier follow this steps");
}

#[test]
fn seeding_writes_the_settings_into_the_metadata_table() {
    let mut store = TestStore::new();
    let config = NodeConfig::parse(CONFIG).unwrap();
    seed_metadata(&mut store, &config);
    let table = store.get(&"__metadata".to_string()).unwrap();
    assert_eq!(table.get(&"node_id".to_string()), Some(b"node-1".to_vec()));
    assert_eq!(table.get(&"node_address".to_string()), Some(b"10.0.0.1:7000".to_vec()));
    assert_eq!(table.get(&"anchor_address".to_string()), Some(b"10.0.0.2:7000".to_vec()));
    assert_eq!(table.get(&"region".to_string()), Some(b"eu-west".to_vec()));
    assert_eq!(table.get(&"status".to_string()), Some(b"active".to_vec()));
    let got = get(&store, &get_request("__metadata", "node_id")).unwrap();
    assert_eq!(got.value, Some(b"node-1".to_vec()));
}

#[test]
fn details_frame_the_settings() {
    let c = NodeConfig::parse(CONFIG).unwrap();
    let expected = "╔════════════════════════════════════╗\n\
║           NODE DETAILS            ║\n\
╠════════════════════════════════════╣\n\
║ ID      : node-1\n\
║ Status  : active\n\
║ Region  : eu-west\n\
║ Address : 10.0.0.1:7000\n\
║ Anchor  : 10.0.0.2:7000\n\
╚════════════════════════════════════╝\n";
    assert_eq!(c.details(), expected);
    assert_eq!(Node::parse(CONFIG).unwrap().details(), expected);
}

#[test]
fn byte_sizes_count_bytes() {
    assert_eq!(b"abc".to_vec().byte_size(), 3);
    assert_eq!("héllo".to_string().byte_size(), 6);
    assert_eq!(Arc::new(b"ab".to_vec()).byte_size(), 2);
    assert_eq!(().byte_size(), 0);
}

#[test]
fn test_store_tables_hold_keys() {
    let mut store = TestStore::new();
    let t = "t".to_string();
    store.create(&t);
    store.create(&t);
    assert_eq!(store.len(), 1);
    store.insert(&t, "k".to_string(), b"v".to_vec());
    store.insert(&"auto".to_string(), "k".to_string(), b"w".to_vec());
    assert_eq!(store.len(), 2);
    let table = store.get(&t).unwrap();
    assert!(table.contains(&"k".to_string()));
    assert_eq!(table.get(&"k".to_string()), Some(b"v".to_vec()));
    assert_eq!(store.remove_key(&t, &"k".to_string()), Some(b"v".to_vec()));
    assert_eq!(store.remove_key(&t, &"k".to_string()), None);
    store.remove(&t);
    assert!(store.get(&t).is_none());
    assert_eq!(store.len(), 1);
}
