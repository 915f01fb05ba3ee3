use storage::events::dispatcher::Dispatcher;
use storage::ewal::WalEntry;
use storage::wal::error::WalError;
use storage::wal::format::{validate_header, WAL_HEADER_SIZE};
use storage::wal::options::DEFAULT_ENTRY_SIZE_LIMIT;
use storage::walmanager::WalManager;

fn record(payload: &[u8]) -> WalEntry {
    WalEntry { payload: payload.to_vec(), key: None, operation: None, checksum: None }
}

fn not_created<T: std::fmt::Debug>(r: Result<T, WalError>) -> bool {
    matches!(r, Err(WalError::InvalidPayload(m)) if m == "WAL writer has not been created")
}

#[test]
fn manager_without_writer_refuses_everything() {
    let mut manager = WalManager::default();
    assert!(!manager.is_initialized());
    assert!(not_created(manager.append(&record(b"x"))));
    assert!(not_created(manager.append_batch(&[record(b"x")])));
    assert!(not_created(manager.flush()));
    assert!(not_created(manager.sync()));
    assert!(not_created(manager.position()));
    assert!(not_created(manager.path()));
}

#[test]
fn writer_is_created_once() {
    let mut manager = WalManager::default();
    manager.create_writer("/var/wal/events.wal".to_string(), None).unwrap();
    assert!(manager.is_initialized());
    assert_eq!(manager.path().unwrap(), "/var/wal/events.wal");
    assert_eq!(manager.position().unwrap(), WAL_HEADER_SIZE as u64);
    let again = manager.create_writer("/other.wal".to_string(), None);
    assert!(matches!(again, Err(WalError::InvalidPayload(m)) if m == "WAL writer already created"));
    assert_eq!(manager.path().unwrap(), "/var/wal/events.wal");
}

#[test]
fn appended_payloads_are_framed_after_the_header() {
    let mut manager = WalManager::default();
    manager.create_writer("w.wal".to_string(), None).unwrap();
    manager.append(&record(b"insert:t:k")).unwrap();
    let bytes = manager.flush().unwrap();
    validate_header(&bytes).unwrap();
    assert_eq!(bytes.len(), WAL_HEADER_SIZE + 8 + 10);
    assert_eq!(&bytes[WAL_HEADER_SIZE..WAL_HEADER_SIZE + 4], &[0, 0, 0, 10]);
    assert_eq!(&bytes[WAL_HEADER_SIZE + 8..], b"insert:t:k");
    assert!(manager.flush().unwrap().is_empty());
    assert_eq!(manager.position().unwrap(), bytes.len() as u64);
    assert!(manager.sync().is_ok());
}

#[test]
fn batch_frames_each_payload_in_order() {
    let mut manager = WalManager::default();
    manager.create_writer("w.wal".to_string(), None).unwrap();
    manager.flush().unwrap();
    manager.append_batch(&[record(b"a"), record(b"bc")]).unwrap();
    let bytes = manager.flush().unwrap();
    assert_eq!(bytes.len(), 9 + 10);
    assert_eq!(bytes[8], b'a');
    assert_eq!(&bytes[17..], b"bc");
}

#[test]
fn existing_log_continues_at_its_end() {
    let mut first = WalManager::default();
    first.create_writer("w.wal".to_string(), None).unwrap();
    first.append(&record(b"one")).unwrap();
    let file = first.flush().unwrap();
    let mut second = WalManager::default();
    second.create_writer("w.wal".to_string(), Some(file.clone())).unwrap();
    assert_eq!(second.position().unwrap(), file.len() as u64);
    assert!(second.flush().unwrap().is_empty());
}

#[test]
fn bad_file_leaves_the_manager_uninitialized() {
    let mut manager = WalManager::default();
    let r = manager.create_writer("w.wal".to_string(), Some(b"NOTAWAL!".to_vec()));
    assert!(matches!(r, Err(WalError::InvalidHeader { .. })));
    assert!(!manager.is_initialized());
}

#[test]
fn oversized_payload_is_refused() {
    let mut manager = WalManager::default();
    manager.create_writer("w.wal".to_string(), None).unwrap();
    let big = vec![0u8; DEFAULT_ENTRY_SIZE_LIMIT + 1];
    assert!(matches!(manager.append(&record(&big)), Err(WalError::InvalidPayload(_))));
    assert_eq!(manager.position().unwrap(), WAL_HEADER_SIZE as u64);
}

#[test]
fn dispatched_event_is_logged() {
    let mut manager = WalManager::default();
    manager.create_writer("w.wal".to_string(), None).unwrap();
    manager.flush().unwrap();
    let entry = Dispatcher::new().wal_entry(b"update:users:bob".to_vec());
    manager.append(&entry).unwrap();
    let bytes = manager.flush().unwrap();
    assert_eq!(&bytes[8..], b"update:users:bob");
}
