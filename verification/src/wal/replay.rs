//! Replaying a write-ahead log into a table store.

use vstd::prelude::*;
use crate::wal::entry::{entry_error, parse_entry, EntryView, WalEntry};
use crate::wal::error::WalError;
use crate::wal::format::{bad_magic_text, check_header, HeaderCheck, WAL_HEADER_SIZE};
use crate::wal::options::{ReplayMode, ReplaySummary};
use crate::wal::codec::be32_at;
use crate::wal::reader::{checksum_text, frame_at, over_limit_text, Frame, WalReader};
use crate::wal::test_store::{table_or_empty, StoreView, TestStore};

verus! {

/// The store after one entry is applied to it.
pub open spec fn apply(s: StoreView, e: EntryView) -> StoreView {
    match e {
        EntryView::CreateTable { table } => if s.contains_key(table) {
            s
        } else {
            s.insert(table, Map::empty())
        },
        EntryView::RemoveTable { table } => s.remove(table),
        EntryView::Insert { table, key, value } => s.insert(
            table,
            table_or_empty(s, table).insert(key, value),
        ),
        EntryView::Update { table, key, value } => s.insert(
            table,
            table_or_empty(s, table).insert(key, value),
        ),
        EntryView::Delete { table, key } => if s.contains_key(table) {
            s.insert(table, s[table].remove(key))
        } else {
            s
        },
    }
}

/// The store after a sequence of entries is applied in order.
pub open spec fn apply_all(s: StoreView, es: Seq<EntryView>) -> StoreView
    decreases es.len(),
{
    if es.len() == 0 {
        s
    } else {
        apply_all(apply(s, es[0]), es.drop_first())
    }
}

/// How a replay ends.
pub enum Outcome {
    /// Success: the summary's fields.
    Replayed {
        applied: nat,
        final_position: int,
        truncated_at: Option<int>,
        corruption_at: Option<int>,
    },
    /// The log ended inside an entry (strict mode).
    Truncated,
    /// An entry was too large or failed its checksum (strict mode).
    Corrupt { position: int, reason: Seq<char> },
    /// A payload with a good checksum did not decode (strict mode); the
    /// message where the payload fixes it.
    InvalidPayload { message: Option<Seq<char>> },
    /// The header was too short or had the wrong magic.
    BadHeader { reason: Seq<char> },
    /// The header named another version.
    BadVersion { found: u8 },
}

/// The reason a frame that is too large or fails its checksum is reported
/// with.
pub open spec fn corrupt_reason(f: Frame, lim: int) -> Seq<char> {
    match f {
        Frame::TooLarge { len } => over_limit_text(len as nat, lim as nat),
        Frame::Mismatch { stored, computed } => checksum_text(stored, computed),
        _ => Seq::empty(),
    }
}

/// Replay from offset `c`, with `n` entries applied so far: the store it
/// leaves, and how it ends.
pub open spec fn replay_from(
    s: StoreView,
    d: Seq<u8>,
    c: int,
    n: nat,
    lim: int,
    mode: ReplayMode,
) -> (StoreView, Outcome)
    decreases d.len() - c,
{
    match frame_at(d, c, lim) {
        Frame::End => (
            s,
            Outcome::Replayed {
                applied: n,
                final_position: c,
                truncated_at: None,
                corruption_at: None,
            },
        ),
        Frame::Truncated => if mode == ReplayMode::Strict {
            (s, Outcome::Truncated)
        } else {
            (
                s,
                Outcome::Replayed {
                    applied: n,
                    final_position: c,
                    truncated_at: Some(c),
                    corruption_at: None,
                },
            )
        },
        Frame::TooLarge { .. } | Frame::Mismatch { .. } => if mode == ReplayMode::Strict {
            (s, Outcome::Corrupt { position: c, reason: corrupt_reason(frame_at(d, c, lim), lim) })
        } else {
            (
                s,
                Outcome::Replayed {
                    applied: n,
                    final_position: c,
                    truncated_at: None,
                    corruption_at: Some(c),
                },
            )
        },
        Frame::Complete { payload } => match parse_entry(payload) {
            Some(e) => {
                proof {
                    assert(payload.len() == be32_at(d, c));
                }
                replay_from(apply(s, e), d, c + 8 + payload.len(), n + 1, lim, mode)
            },
            None => if mode == ReplayMode::Strict {
                (s, Outcome::InvalidPayload { message: entry_error(payload) })
            } else {
                (
                    s,
                    Outcome::Replayed {
                        applied: n,
                        final_position: c,
                        truncated_at: None,
                        corruption_at: None,
                    },
                )
            },
        },
    }
}

/// Replay of a whole log: `wal` is the file's bytes, or `None` when there
/// is no file. The payload limit is the reader's default.
pub open spec fn replay_log(s: StoreView, wal: Option<Seq<u8>>, mode: ReplayMode) -> (
    StoreView,
    Outcome,
) {
    match wal {
        None => (
            s,
            Outcome::Replayed {
                applied: 0,
                final_position: 0,
                truncated_at: None,
                corruption_at: None,
            },
        ),
        Some(d) => match check_header(d) {
            HeaderCheck::Valid => replay_from(s, d, 8, 0, 256 * 1024 * 1024 as int, mode),
            HeaderCheck::BadVersion { found } => (s, Outcome::BadVersion { found }),
            HeaderCheck::TooShort => (
                s,
                Outcome::BadHeader { reason: "file too short to contain WAL header"@ },
            ),
            HeaderCheck::BadMagic => (
                s,
                Outcome::BadHeader { reason: bad_magic_text(d[0], d[1], d[2], d[3]) },
            ),
        },
    }
}

/// One step of `replay_from`, unfolded.
proof fn lemma_replay_step(s: StoreView, d: Seq<u8>, c: int, n: nat, lim: int, mode: ReplayMode)
    ensures
        match frame_at(d, c, lim) {
            Frame::Complete { payload } => match parse_entry(payload) {
                Some(e) => replay_from(s, d, c, n, lim, mode) == replay_from(
                    apply(s, e),
                    d,
                    c + 8 + payload.len(),
                    n + 1,
                    lim,
                    mode,
                ),
                None => replay_from(s, d, c, n, lim, mode).0 == s,
            },
            _ => replay_from(s, d, c, n, lim, mode).0 == s,
        },
{
}

pub open spec fn same_offset(a: Option<u64>, b: Option<int>) -> bool {
    match (a, b) {
        (None, None) => true,
        (Some(x), Some(y)) => x == y,
        _ => false,
    }
}

/// What the result of a replay says, for an outcome.
pub open spec fn result_matches(r: Result<ReplaySummary, WalError>, o: Outcome) -> bool {
    match o {
        Outcome::Replayed { applied, final_position, truncated_at, corruption_at } => {
            &&& r matches Ok(sum)
            &&& sum.entries_applied == applied
            &&& sum.final_position == final_position
            &&& same_offset(sum.truncated_at, truncated_at)
            &&& same_offset(sum.corruption_detected_at, corruption_at)
        },
        Outcome::Truncated => r matches Err(WalError::UnexpectedEof),
        Outcome::Corrupt { position, reason } => r matches Err(
            WalError::CorruptEntry { position: p, reason: why },
        ) && p == position && why@ == reason,
        Outcome::InvalidPayload { message } => r matches Err(WalError::InvalidPayload(m)) && (
        message is Some ==> m@ == message->Some_0),
        Outcome::BadHeader { reason } => r matches Err(WalError::InvalidHeader { reason: why })
            && why@ == reason,
        Outcome::BadVersion { found } => r matches Err(
            WalError::UnsupportedVersion { found: f, expected },
        ) && f == found && expected == 1,
    }
}

pub open spec fn wal_bytes(wal: Option<Vec<u8>>) -> Option<Seq<u8>> {
    match wal {
        Some(v) => Some(v@),
        None => None,
    }
}

/// Replays a WAL into `store` using the default lenient mode. `wal` holds
/// the file's bytes; `None` stands for a missing file, which is treated as
/// an empty WAL.
pub fn replay(store: &mut TestStore, wal: Option<Vec<u8>>) -> (r: Result<ReplaySummary, WalError>)
    requires
        old(store).wf(),
    ensures
        final(store).wf(),
        final(store)@ == replay_log(old(store)@, wal_bytes(wal), ReplayMode::Lenient).0,
        result_matches(r, replay_log(old(store)@, wal_bytes(wal), ReplayMode::Lenient).1),
{
    replay_with_mode(store, wal, ReplayMode::Lenient)
}

/// Replays a WAL into `store` using the requested mode. `wal` holds the
/// file's bytes; `None` stands for a missing file, which is treated as an
/// empty WAL.
#[verifier::rlimit(30)]
pub fn replay_with_mode(store: &mut TestStore, wal: Option<Vec<u8>>, mode: ReplayMode) -> (r:
    Result<ReplaySummary, WalError>)
    requires
        old(store).wf(),
    ensures
        final(store).wf(),
        final(store)@ == replay_log(old(store)@, wal_bytes(wal), mode).0,
        result_matches(r, replay_log(old(store)@, wal_bytes(wal), mode).1),
{
    let data = match wal {
        None => return Ok(ReplaySummary::default()),
        Some(data) => data,
    };
    let ghost d = data@;
    let mut reader = WalReader::open(data)?;
    let mut summary = ReplaySummary {
        entries_applied: 0,
        final_position: WAL_HEADER_SIZE as u64,
        truncated_at: None,
        corruption_detected_at: None,
    };
    let ghost s0 = store@;
    let ghost lim: int = 256 * 1024 * 1024 as int;
    loop
        invariant
            store.wf(),
            reader.wf(),
            reader.bytes() == d,
            reader.limit() == lim,
            !reader.at_eof(),
            reader.cursor() == reader.pos(),
            summary.final_position == reader.pos(),
            8 * summary.entries_applied <= reader.pos(),
            summary.truncated_at is None,
            summary.corruption_detected_at is None,
            replay_log(old(store)@, wal_bytes(wal), mode) == replay_from(
                store@,
                d,
                reader.cursor(),
                summary.entries_applied as nat,
                lim,
                mode,
            ),
        decreases d.len() - reader.cursor(),
    {
        let start_position = reader.position();
        let ghost c = reader.cursor();
        let ghost n = summary.entries_applied as nat;
        let ghost s1 = store@;
        proof {
            lemma_replay_step(s1, d, c, n, lim, mode);
        }
        match reader.next_entry() {
            Ok(Some(entry)) => {
                apply_entry(store, entry);
                summary.entries_applied = summary.entries_applied + 1;
                summary.final_position = reader.position();
            },
            Ok(None) => {
                assert(frame_at(d, c, lim) is End);
                return Ok(summary);
            },
            Err(err) => {
                if mode == ReplayMode::Strict {
                    return Err(err);
                }
                match err {
                    WalError::UnexpectedEof => {
                        summary.truncated_at = Some(start_position);
                    },
                    WalError::CorruptEntry { position, .. } => {
                        summary.corruption_detected_at = Some(position);
                    },
                    _ => {},
                }
                return Ok(summary);
            },
        }
    }
}

/// Applies one entry to `store`.
pub fn apply_entry(store: &mut TestStore, entry: WalEntry)
    requires
        old(store).wf(),
    ensures
        final(store).wf(),
        final(store)@ == apply(old(store)@, entry@),
{
    match entry {
        WalEntry::CreateTable { table } => {
            store.create(&table);
        },
        WalEntry::RemoveTable { table } => {
            store.remove(&table);
        },
        WalEntry::Insert { table, key, value } => {
            store.insert(&table, key, value);
        },
        WalEntry::Update { table, key, value } => {
            store.insert(&table, key, value);
        },
        WalEntry::Delete { table, key } => {
            let _ = store.remove_key(&table, &key);
        },
    }
}

} // verus!
