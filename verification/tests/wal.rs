use storage::wal::checksum::crc32;
use storage::wal::entry::WalEntry;
use storage::wal::error::WalError;
use storage::wal::format::{validate_header, write_header, ENTRY_OVERHEAD, WAL_HEADER_SIZE, WAL_MAGIC};
use storage::wal::options::{ReplayMode, WalOptions};
use storage::wal::reader::WalReader;
use storage::wal::replay::{replay, replay_with_mode};
use storage::wal::test_store::TestStore;
use storage::wal::writer::WalWriter;

/// The bytes a fresh log holds after the given entries were appended.
fn written(entries: &[WalEntry]) -> Vec<u8> {
    let mut writer = WalWriter::create(None).unwrap();
    for entry in entries {
        writer.append(entry).unwrap();
    }
    writer.take_pending()
}

#[test]
fn roundtrip_all_entry_variants() {
    let entries = vec![
        WalEntry::CreateTable {
            table: "users".into(),
        },
        WalEntry::RemoveTable {
            table: "old".into(),
        },
        WalEntry::Insert {
            table: "users".into(),
            key: "alice".into(),
            value: b"data".to_vec(),
        },
        WalEntry::Update {
            table: "users".into(),
            key: "alice".into(),
            value: b"new".to_vec(),
        },
        WalEntry::Delete {
            table: "users".into(),
            key: "alice".into(),
        },
    ];
    for entry in entries {
        let bytes = entry.to_bytes();
        let decoded = WalEntry::from_bytes(&bytes).unwrap();
        assert_eq!(entry, decoded);
    }
}

#[test]
fn write_header_and_replay_empty() {
    let bytes = written(&[]);
    let mut store = TestStore::new();
    let summary = replay(&mut store, Some(bytes)).unwrap();
    assert_eq!(summary.entries_applied, 0);
    assert_eq!(summary.final_position, WAL_HEADER_SIZE as u64);
}

#[test]
fn append_and_replay_applies_entries() {
    let bytes = written(&[
        WalEntry::CreateTable {
            table: "users".into(),
        },
        WalEntry::Insert {
            table: "users".into(),
            key: "alice".into(),
            value: b"123".to_vec(),
        },
    ]);
    let mut store = TestStore::new();
    let summary = replay(&mut store, Some(bytes)).unwrap();
    assert_eq!(summary.entries_applied, 2);
    let table = store.get(&"users".to_string()).unwrap();
    assert_eq!(table.get(&"alice".to_string()).unwrap(), b"123".to_vec());
}

#[test]
fn append_batch_is_durable() {
    let mut writer = WalWriter::create(None).unwrap();
    let entries = vec![
        WalEntry::CreateTable {
            table: "t".into(),
        },
        WalEntry::Insert {
            table: "t".into(),
            key: "k".into(),
            value: b"v".to_vec(),
        },
    ];
    writer.append_batch(&entries).unwrap();
    let bytes = writer.take_pending();
    let mut store = TestStore::new();
    let summary = replay(&mut store, Some(bytes)).unwrap();
    assert_eq!(summary.entries_applied, 2);
}

#[test]
fn replay_missing_file_returns_empty_summary() {
    let mut store = TestStore::new();
    let summary = replay(&mut store, None).unwrap();
    assert_eq!(summary.entries_applied, 0);
}

#[test]
fn replay_truncated_header_lenient() {
    let mut bytes = written(&[WalEntry::CreateTable {
        table: "t".into(),
    }]);
    // Two extra bytes, so the next length header is truncated.
    bytes.extend_from_slice(&[0, 0]);
    let mut store = TestStore::new();
    let summary = replay_with_mode(&mut store, Some(bytes), ReplayMode::Lenient).unwrap();
    assert_eq!(summary.entries_applied, 1);
    assert!(summary.truncated_at.is_some());
}

#[test]
fn replay_truncated_header_strict() {
    let mut bytes = written(&[WalEntry::CreateTable {
        table: "t".into(),
    }]);
    bytes.extend_from_slice(&[0, 0]);
    let mut store = TestStore::new();
    let err = replay_with_mode(&mut store, Some(bytes), ReplayMode::Strict).unwrap_err();
    assert!(matches!(err, WalError::UnexpectedEof));
}

#[test]
fn replay_corrupt_checksum_strict() {
    let mut bytes = written(&[WalEntry::CreateTable {
        table: "t".into(),
    }]);
    bytes[WAL_HEADER_SIZE + ENTRY_OVERHEAD] ^= 0xFF;
    let mut store = TestStore::new();
    let err = replay_with_mode(&mut store, Some(bytes), ReplayMode::Strict).unwrap_err();
    assert!(matches!(err, WalError::CorruptEntry { .. }));
}

#[test]
fn replay_corrupt_checksum_lenient() {
    let mut bytes = written(&[WalEntry::CreateTable {
        table: "t".into(),
    }]);
    bytes[WAL_HEADER_SIZE + ENTRY_OVERHEAD] ^= 0xFF;
    let mut store = TestStore::new();
    let summary = replay_with_mode(&mut store, Some(bytes), ReplayMode::Lenient).unwrap();
    assert_eq!(summary.entries_applied, 0);
    assert!(summary.corruption_detected_at.is_some());
}

#[test]
fn invalid_header_rejected() {
    let err = WalReader::open(b"NOTAWAL!".to_vec()).unwrap_err();
    assert!(matches!(err, WalError::InvalidHeader { .. }));
}

#[test]
fn unsupported_version_rejected() {
    let mut header = [0u8; WAL_HEADER_SIZE];
    header[0..4].copy_from_slice(&WAL_MAGIC);
    header[4] = 255;
    let err = WalReader::open(header.to_vec()).unwrap_err();
    assert!(matches!(err, WalError::UnsupportedVersion { .. }));
}

#[test]
fn oversized_payload_rejected() {
    let mut options = WalOptions::default();
    options.entry_size_limit = 4;
    let mut writer = WalWriter::open(None, options).unwrap();
    let err = writer
        .append(&WalEntry::Insert {
            table: "t".into(),
            key: "k".into(),
            value: b"hello".to_vec(),
        })
        .unwrap_err();
    assert!(matches!(err, WalError::InvalidPayload(_)));
}

// ---- checks of the library's own ----

#[test]
fn crc32_matches_the_standard_check_value() {
    assert_eq!(crc32(b"123456789"), 0xCBF4_3926);
    assert_eq!(crc32(b""), 0);
}

#[test]
fn header_bytes_are_magic_then_version() {
    let mut buf = Vec::new();
    write_header(&mut buf);
    assert_eq!(buf, b"TRDB\x01\x00\x00\x00".to_vec());
    assert!(validate_header(&buf).is_ok());
}

#[test]
fn short_header_is_rejected() {
    let err = validate_header(b"TRDB").unwrap_err();
    match err {
        WalError::InvalidHeader { reason } => {
            assert_eq!(reason, "file too short to contain WAL header")
        }
        other => panic!("unexpected error {:?}", other),
    }
}

#[test]
fn create_table_payload_encoding() {
    let entry = WalEntry::CreateTable { table: "ab".into() };
    assert_eq!(entry.to_bytes(), vec![0, 0, 0, 0, 2, b'a', b'b']);
}

#[test]
fn insert_payload_encoding() {
    let entry = WalEntry::Insert {
        table: "t".into(),
        key: "k".into(),
        value: vec![9],
    };
    assert_eq!(
        entry.to_bytes(),
        vec![2, 0, 0, 0, 1, b't', 0, 0, 0, 1, b'k', 0, 0, 0, 1, 9]
    );
}

#[test]
fn unknown_tag_is_invalid_payload() {
    let err = WalEntry::from_bytes(&[7, 0, 0, 0, 0]).unwrap_err();
    assert!(matches!(err, WalError::InvalidPayload(_)));
}

#[test]
fn missing_tag_is_invalid_payload() {
    match WalEntry::from_bytes(&[]).unwrap_err() {
        WalError::InvalidPayload(m) => assert_eq!(m, "missing tag"),
        other => panic!("unexpected error {:?}", other),
    }
}

#[test]
fn trailing_bytes_are_invalid_payload() {
    let mut bytes = WalEntry::CreateTable { table: "t".into() }.to_bytes();
    bytes.push(0);
    assert!(matches!(
        WalEntry::from_bytes(&bytes),
        Err(WalError::InvalidPayload(_))
    ));
}

#[test]
fn invalid_utf8_is_invalid_payload() {
    assert!(matches!(
        WalEntry::from_bytes(&[0, 0, 0, 0, 1, 0xFF]),
        Err(WalError::InvalidPayload(_))
    ));
}

#[test]
fn frame_layout_is_length_checksum_payload() {
    let entry = WalEntry::CreateTable { table: "t".into() };
    let payload = entry.to_bytes();
    let bytes = written(&[entry]);
    assert_eq!(bytes.len(), WAL_HEADER_SIZE + ENTRY_OVERHEAD + payload.len());
    assert_eq!(&bytes[8..12], &(payload.len() as u32).to_be_bytes());
    assert_eq!(&bytes[12..16], &crc32(&payload).to_be_bytes());
    assert_eq!(&bytes[16..], &payload[..]);
}

#[test]
fn replay_applies_every_kind_of_entry() {
    let bytes = written(&[
        WalEntry::CreateTable { table: "a".into() },
        WalEntry::Insert { table: "a".into(), key: "k1".into(), value: b"1".to_vec() },
        WalEntry::Insert { table: "b".into(), key: "k2".into(), value: b"2".to_vec() },
        WalEntry::Update { table: "a".into(), key: "k1".into(), value: b"3".to_vec() },
        WalEntry::Delete { table: "b".into(), key: "k2".into() },
        WalEntry::Delete { table: "missing".into(), key: "k".into() },
        WalEntry::CreateTable { table: "gone".into() },
        WalEntry::RemoveTable { table: "gone".into() },
    ]);
    let total = bytes.len() as u64;
    let mut store = TestStore::new();
    let summary = replay(&mut store, Some(bytes)).unwrap();
    assert_eq!(summary.entries_applied, 8);
    assert_eq!(summary.final_position, total);
    assert_eq!(store.len(), 2);
    assert_eq!(store.get(&"a".to_string()).unwrap().get(&"k1".to_string()), Some(b"3".to_vec()));
    assert!(!store.get(&"b".to_string()).unwrap().contains(&"k2".to_string()));
    assert!(store.get(&"gone".to_string()).is_none());
}

#[test]
fn reader_yields_entries_then_none() {
    let first = WalEntry::CreateTable { table: "t".into() };
    let second = WalEntry::Delete { table: "t".into(), key: "k".into() };
    let bytes = written(&[first.clone(), second.clone()]);
    let end = bytes.len() as u64;
    let mut reader = WalReader::open(bytes).unwrap();
    assert_eq!(reader.position(), 8);
    assert_eq!(reader.next_entry().unwrap(), Some(first));
    assert_eq!(reader.next_entry().unwrap(), Some(second));
    assert_eq!(reader.position(), end);
    assert_eq!(reader.next_entry().unwrap(), None);
    assert_eq!(reader.next_entry().unwrap(), None);
}

#[test]
fn reader_rejects_payload_over_its_limit() {
    let bytes = written(&[WalEntry::CreateTable { table: "table".into() }]);
    let mut reader = WalReader::open_with_options(bytes, 4).unwrap();
    match reader.next_entry().unwrap_err() {
        WalError::CorruptEntry { position, .. } => assert_eq!(position, 8),
        other => panic!("unexpected error {:?}", other),
    }
}

#[test]
fn bad_header_fails_replay_in_lenient_mode_too() {
    let mut store = TestStore::new();
    let err = replay(&mut store, Some(b"NOTAWAL!".to_vec())).unwrap_err();
    assert!(matches!(err, WalError::InvalidHeader { .. }));
}

#[test]
fn writer_on_existing_log_continues_at_its_end() {
    let bytes = written(&[WalEntry::CreateTable { table: "t".into() }]);
    let len = bytes.len() as u64;
    let mut writer = WalWriter::create(Some(bytes)).unwrap();
    assert_eq!(writer.position(), len);
    assert!(writer.take_pending().is_empty());
    let err = WalWriter::create(Some(b"NOTAWAL!".to_vec())).err().unwrap();
    assert!(matches!(err, WalError::InvalidHeader { .. }));
}

#[test]
fn batch_stops_at_first_oversized_entry() {
    let mut options = WalOptions::default();
    options.entry_size_limit = 8;
    let mut writer = WalWriter::open(None, options).unwrap();
    let small = WalEntry::CreateTable { table: "t".into() };
    let big = WalEntry::CreateTable { table: "a-long-table".into() };
    let err = writer.append_batch(&[small.clone(), big, small.clone()]).unwrap_err();
    assert!(matches!(err, WalError::InvalidPayload(_)));
    let bytes = writer.take_pending();
    let mut store = TestStore::new();
    let summary = replay(&mut store, Some(bytes)).unwrap();
    assert_eq!(summary.entries_applied, 1);
}

fn payload_message(r: Result<WalEntry, WalError>) -> String {
    match r {
        Err(WalError::InvalidPayload(m)) => m,
        other => panic!("unexpected result {:?}", other),
    }
}

#[test]
fn decode_errors_name_what_went_wrong() {
    assert_eq!(payload_message(WalEntry::from_bytes(&[7, 0, 0, 0, 0])), "unknown tag 7");
    let mut bytes = WalEntry::CreateTable { table: "t".into() }.to_bytes();
    bytes.push(0);
    assert_eq!(
        payload_message(WalEntry::from_bytes(&bytes)),
        "trailing bytes after entry: decoded 6 bytes, payload is 7 bytes"
    );
    assert_eq!(payload_message(WalEntry::from_bytes(&[0, 0, 0])), "length header missing");
    assert_eq!(payload_message(WalEntry::from_bytes(&[0, 0, 0, 0, 5, b'a'])), "string bytes missing");
    assert_eq!(payload_message(WalEntry::from_bytes(&[2, 0, 0, 0, 1, b't', 0, 0, 0, 1, b'k', 0, 0, 0, 3, 1])), "bytes missing");
    assert!(payload_message(WalEntry::from_bytes(&[0, 0, 0, 0, 1, 0xFF])).starts_with("invalid utf8: "));
}

#[test]
fn bad_magic_reason_lists_both_magics() {
    match validate_header(b"NOTAWAL!").unwrap_err() {
        WalError::InvalidHeader { reason } => {
            assert_eq!(reason, "bad magic: expected [84, 82, 68, 66], found [78, 79, 84, 65]")
        }
        other => panic!("unexpected error {:?}", other),
    }
}

#[test]
fn reader_reasons_give_sizes_and_checksums() {
    let mut log = written(&[WalEntry::CreateTable { table: "t".into() }]);
    let mut reader = WalReader::open_with_options(log.clone(), 2).unwrap();
    match reader.next_entry().unwrap_err() {
        WalError::CorruptEntry { position, reason } => {
            assert_eq!(position, 8);
            assert_eq!(reason, "payload length 6 exceeds configured limit 2");
        }
        other => panic!("unexpected error {:?}", other),
    }
    let stored = u32::from_be_bytes([log[12], log[13], log[14], log[15]]);
    let last = log.len() - 1;
    log[last] ^= 0xFF;
    let computed = crc32(&log[16..]);
    let mut reader = WalReader::open(log).unwrap();
    match reader.next_entry().unwrap_err() {
        WalError::CorruptEntry { position, reason } => {
            assert_eq!(position, 8);
            assert_eq!(reason, format!("checksum mismatch: expected {:08x}, found {:08x}", stored, computed));
        }
        other => panic!("unexpected error {:?}", other),
    }
}

#[test]
fn writer_refusal_names_the_limit() {
    let mut options = WalOptions::default();
    options.entry_size_limit = 4;
    let mut writer = WalWriter::open(None, options).unwrap();
    match writer.append_payload(b"hello").unwrap_err() {
        WalError::InvalidPayload(m) => assert_eq!(m, "payload length 5 exceeds configured limit 4"),
        other => panic!("unexpected error {:?}", other),
    }
}

#[test]
fn errors_describe_themselves() {
    assert_eq!(WalError::InvalidPayload("x".into()).describe(), "invalid WAL payload: x");
    assert_eq!(WalError::UnexpectedEof.describe(), "unexpected end of WAL file");
    assert_eq!(
        WalError::CorruptEntry { position: 42, reason: "bad".into() }.describe(),
        "corrupt WAL entry at offset 42: bad"
    );
    assert_eq!(WalError::InvalidHeader { reason: "r".into() }.describe(), "invalid WAL header: r");
    assert_eq!(
        WalError::UnsupportedVersion { found: 255, expected: 1 }.describe(),
        "unsupported WAL version 255 (expected 1)"
    );
    assert_eq!(WalError::PathMissing.describe(), "WAL path has no parent directory");
    let io = WalError::Io(std::io::Error::new(std::io::ErrorKind::Other, "disk gone"));
    assert_eq!(io.describe(), "I/O error: disk gone");
}

#[test]
fn io_errors_convert_by_kind() {
    let eof = std::io::Error::new(std::io::ErrorKind::UnexpectedEof, "short");
    assert!(matches!(WalError::from_io(eof), WalError::UnexpectedEof));
    let other = std::io::Error::new(std::io::ErrorKind::PermissionDenied, "no");
    assert!(matches!(WalError::from_io(other), WalError::Io(_)));
}

#[test]
fn strict_replay_reports_why_it_stopped() {
    let mut log = written(&[
        WalEntry::CreateTable { table: "t".into() },
        WalEntry::CreateTable { table: "u".into() },
    ]);
    let second = 8 + 8 + 6;
    let stored = u32::from_be_bytes([log[second + 4], log[second + 5], log[second + 6], log[second + 7]]);
    let last = log.len() - 1;
    log[last] ^= 0x01;
    let computed = crc32(&log[second + 8..]);
    let mut store = TestStore::new();
    match replay_with_mode(&mut store, Some(log), ReplayMode::Strict).unwrap_err() {
        WalError::CorruptEntry { position, reason } => {
            assert_eq!(position, second as u64);
            assert_eq!(reason, format!("checksum mismatch: expected {:08x}, found {:08x}", stored, computed));
        }
        other => panic!("unexpected error {:?}", other),
    }
    assert!(store.get(&"t".to_string()).is_some());
    assert!(store.get(&"u".to_string()).is_none());
}
