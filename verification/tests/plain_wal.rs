use storage::wal::entry::WalEntry;
use storage::wal::error::WalError;
use storage::wal::plain::{from_bytes, replay, WalWriter};
use storage::wal::test_store::TestStore;

fn log_of(entries: &[WalEntry]) -> Vec<u8> {
    let mut writer = WalWriter::new();
    for entry in entries {
        writer.append(&entry.to_bytes()).unwrap();
    }
    writer.flush()
}

#[test]
fn entry_followed_by_other_bytes_decodes() {
    let entry = WalEntry::CreateTable { table: "t".into() };
    let mut bytes = entry.to_bytes();
    bytes.extend_from_slice(b"tail");
    assert_eq!(from_bytes(&bytes).unwrap(), entry);
}

#[test]
fn unknown_tag_and_missing_tag_are_refused() {
    assert!(matches!(from_bytes(&[9, 0, 0, 0, 0]), Err(WalError::InvalidPayload(m)) if m == "unknown tag 9"));
    assert!(matches!(from_bytes(&[]), Err(WalError::InvalidPayload(m)) if m == "missing tag"));
}

#[test]
fn writer_puts_the_length_before_each_payload() {
    let mut writer = WalWriter::new();
    writer.append(b"abc").unwrap();
    assert_eq!(writer.flush(), vec![0, 0, 0, 3, b'a', b'b', b'c']);
    assert!(writer.flush().is_empty());
}

#[test]
fn written_log_replays_every_entry() {
    let log = log_of(&[
        WalEntry::CreateTable { table: "users".into() },
        WalEntry::Insert { table: "users".into(), key: "alice".into(), value: b"1".to_vec() },
        WalEntry::Update { table: "users".into(), key: "alice".into(), value: b"2".to_vec() },
        WalEntry::Insert { table: "users".into(), key: "bob".into(), value: b"3".to_vec() },
        WalEntry::Delete { table: "users".into(), key: "bob".into() },
    ]);
    let mut store = TestStore::new();
    replay(&mut store, &log).unwrap();
    let table = store.get(&"users".to_string()).unwrap();
    assert_eq!(table.get(&"alice".to_string()), Some(b"2".to_vec()));
    assert_eq!(table.get(&"bob".to_string()), None);
}

#[test]
fn cut_length_ends_replay_quietly() {
    let mut log = log_of(&[WalEntry::CreateTable { table: "t".into() }]);
    log.extend_from_slice(&[0, 0]);
    let mut store = TestStore::new();
    assert!(replay(&mut store, &log).is_ok());
    assert!(store.get(&"t".to_string()).is_some());
}

#[test]
fn cut_payload_fails_with_unexpected_eof() {
    let mut log = log_of(&[
        WalEntry::CreateTable { table: "t".into() },
        WalEntry::CreateTable { table: "u".into() },
    ]);
    log.pop();
    let mut store = TestStore::new();
    assert!(matches!(replay(&mut store, &log), Err(WalError::UnexpectedEof)));
    assert!(store.get(&"t".to_string()).is_some());
    assert!(store.get(&"u".to_string()).is_none());
}

#[test]
fn payload_without_entry_fails_the_replay() {
    let mut writer = WalWriter::new();
    writer.append(&WalEntry::CreateTable { table: "t".into() }.to_bytes()).unwrap();
    writer.append(&[7, 0, 0, 0, 0]).unwrap();
    let log = writer.flush();
    let mut store = TestStore::new();
    assert!(matches!(replay(&mut store, &log), Err(WalError::InvalidPayload(m)) if m == "unknown tag 7"));
    assert!(store.get(&"t".to_string()).is_some());
}
