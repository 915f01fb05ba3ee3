//! The unframed log: each entry's payload after its length as a big-endian
//! `u32`, with no file header and no checksum. Decoding reads an entry at
//! the start of a payload and ignores what follows it.

use vstd::prelude::*;
use vstd::utf8::*;
use crate::text::{concat, decimal, decimal_text};
use crate::wal::codec::{
    be32, be32_at, decode_bytes, decode_field, decode_string, field_error_message,
    lemma_be32_roundtrip,
};
use crate::wal::entry::{
    entry_bytes, fields_fit, lemma_parse_entry_bytes, parse_entry, parse_string, EntryView, WalEntry,
};
use crate::wal::error::WalError;
use crate::wal::replay::{apply, apply_all, apply_entry};
use crate::wal::test_store::{StoreView, TestStore};

verus! {

/// The entry at the start of a payload, if one is there: the tag, the table
/// name, then the fields that the tag calls for. Bytes after them are not
/// read.
#[verifier::opaque]
pub open spec fn parse_prefix(p: Seq<u8>) -> Option<EntryView> {
    if p.len() == 0 {
        None
    } else {
        match parse_string(p, 1) {
            None => None,
            Some((table, n1)) => {
                let c1 = 1 + n1;
                if p[0] == 0u8 {
                    Some(EntryView::CreateTable { table })
                } else if p[0] == 1u8 {
                    Some(EntryView::RemoveTable { table })
                } else if p[0] == 2u8 || p[0] == 3u8 || p[0] == 4u8 {
                    match parse_string(p, c1) {
                        None => None,
                        Some((key, n2)) => if p[0] == 4u8 {
                            Some(EntryView::Delete { table, key })
                        } else {
                            match decode_field(p, c1 + n2) {
                                None => None,
                                Some((value, n3)) => if p[0] == 2u8 {
                                    Some(EntryView::Insert { table, key, value })
                                } else {
                                    Some(EntryView::Update { table, key, value })
                                },
                            }
                        },
                    }
                } else {
                    None
                }
            },
        }
    }
}

/// The message of a payload with no entry at its start, where the payload
/// fixes it: `None` where decoding stops at a field whose bytes are not
/// UTF-8, and where there is an entry.
#[verifier::opaque]
pub open spec fn prefix_error(p: Seq<u8>) -> Option<Seq<char>> {
    if p.len() == 0 {
        Some("missing tag"@)
    } else {
        match decode_field(p, 1) {
            None => Some(field_error_message(p, 1, true)),
            Some((tb, n1)) => if !valid_utf8(tb) {
                None
            } else {
                let c1 = 1 + n1;
                let tag = p[0];
                if tag == 0u8 || tag == 1u8 {
                    None
                } else if tag == 2u8 || tag == 3u8 || tag == 4u8 {
                    match decode_field(p, c1) {
                        None => Some(field_error_message(p, c1, true)),
                        Some((kb, n2)) => if !valid_utf8(kb) || tag == 4u8 {
                            None
                        } else {
                            match decode_field(p, c1 + n2) {
                                None => Some(field_error_message(p, c1 + n2, false)),
                                Some(_) => None,
                            }
                        },
                    }
                } else {
                    Some("unknown tag "@ + decimal(tag as nat))
                }
            },
        }
    }
}

/// Decodes the entry at the start of `payload`; bytes after it are
/// ignored.
pub fn from_bytes(payload: &[u8]) -> (r: Result<WalEntry, WalError>)
    ensures
        match parse_prefix(payload@) {
            Some(e) => r matches Ok(entry) && entry@ == e,
            None => r matches Err(WalError::InvalidPayload(m)) && (prefix_error(payload@) is Some
                ==> m@ == prefix_error(payload@)->Some_0),
        },
{
    reveal(parse_prefix);
    reveal(prefix_error);
    // Brings in that the length fits a `usize`.
    let _n = payload.len();
    if payload.len() == 0 {
        return Err(WalError::InvalidPayload(String::from_str("missing tag")));
    }
    let tag = payload[0];
    let mut cursor: usize = 1;
    let (table, size) = decode_string(payload, cursor)?;
    cursor = cursor + size;
    if tag == 0 {
        Ok(WalEntry::CreateTable { table })
    } else if tag == 1 {
        Ok(WalEntry::RemoveTable { table })
    } else if tag == 2 || tag == 3 {
        let (key, key_size) = decode_string(payload, cursor)?;
        cursor = cursor + key_size;
        let (value, _) = decode_bytes(payload, cursor)?;
        if tag == 2 {
            Ok(WalEntry::Insert { table, key, value })
        } else {
            Ok(WalEntry::Update { table, key, value })
        }
    } else if tag == 4 {
        let (key, _) = decode_string(payload, cursor)?;
        Ok(WalEntry::Delete { table, key })
    } else {
        let n = decimal_text(tag as u64);
        Err(WalError::InvalidPayload(concat("unknown tag ", n.as_str())))
    }
}

/// A payload with its length in front, the length cut to 32 bits as an
/// `as u32` cast does.
pub open spec fn plain_frame(p: Seq<u8>) -> Seq<u8> {
    be32(p.len() as u32) + p
}

/// Writes the unframed log: it keeps the bytes still to be written to the
/// file.
pub struct WalWriter {
    pending: Vec<u8>,
}

impl WalWriter {
    /// The bytes produced and not yet taken out.
    pub closed spec fn pending(&self) -> Seq<u8> {
        self.pending@
    }

    /// A writer with nothing to write: the log starts with no header.
    pub fn new() -> (r: Self)
        ensures
            r.pending() == Seq::<u8>::empty(),
    {
        WalWriter { pending: Vec::new() }
    }

    /// Appends a payload after its length.
    pub fn append(&mut self, entry_payload: &[u8]) -> (r: Result<(), WalError>)
        ensures
            r is Ok,
            final(self).pending() == old(self).pending() + plain_frame(entry_payload@),
    {
        let len = entry_payload.len() as u32;
        self.pending.push((len / 0x100_0000) as u8);
        self.pending.push(((len / 0x1_0000) % 0x100) as u8);
        self.pending.push(((len / 0x100) % 0x100) as u8);
        self.pending.push((len % 0x100) as u8);
        let ghost start = self.pending@;
        let mut i: usize = 0;
        while i < entry_payload.len()
            invariant
                i <= entry_payload@.len(),
                self.pending@ == start + entry_payload@.subrange(0, i as int),
            decreases entry_payload@.len() - i,
        {
            self.pending.push(entry_payload[i]);
            i = i + 1;
            assert(self.pending@ =~= start + entry_payload@.subrange(0, i as int));
        }
        assert(entry_payload@.subrange(0, i as int) =~= entry_payload@);
        assert(final(self).pending() =~= old(self).pending() + plain_frame(entry_payload@));
        Ok(())
    }

    /// Hands out the bytes produced so far, to be written and flushed.
    pub fn flush(&mut self) -> (r: Vec<u8>)
        ensures
            r@ == old(self).pending(),
            final(self).pending() == Seq::<u8>::empty(),
    {
        let mut out = Vec::new();
        std::mem::swap(&mut out, &mut self.pending);
        out
    }
}

/// How a replay of the unframed log ends.
pub enum PlainOutcome {
    /// The log ran out at an entry's start or inside a length.
    Done,
    /// The log ended inside a payload.
    Truncated,
    /// A payload held no entry; the message where the payload fixes it.
    Invalid { message: Option<Seq<char>> },
}

/// Replay of the unframed log `d` from offset `c`: the store it leaves and
/// how it ends.
pub open spec fn plain_replay_from(s: StoreView, d: Seq<u8>, c: int) -> (StoreView, PlainOutcome)
    decreases d.len() - c,
{
    if c < 0 || c + 4 > d.len() {
        (s, PlainOutcome::Done)
    } else {
        let size = be32_at(d, c) as int;
        if c + 4 + size > d.len() {
            (s, PlainOutcome::Truncated)
        } else {
            let payload = d.subrange(c + 4, c + 4 + size);
            match parse_prefix(payload) {
                None => (s, PlainOutcome::Invalid { message: prefix_error(payload) }),
                Some(e) => plain_replay_from(apply(s, e), d, c + 4 + size),
            }
        }
    }
}

/// What the result of a replay says, for an outcome.
pub open spec fn plain_result_matches(r: Result<(), WalError>, o: PlainOutcome) -> bool {
    match o {
        PlainOutcome::Done => r is Ok,
        PlainOutcome::Truncated => r matches Err(WalError::UnexpectedEof),
        PlainOutcome::Invalid { message } => r matches Err(WalError::InvalidPayload(m)) && (
        message is Some ==> m@ == message->Some_0),
    }
}

/// Replays the unframed log held in `data` into `store`, entry by entry. It
/// stops without error where the log ends at an entry's start or inside a
/// length; a payload cut short, or one that holds no entry, fails the
/// replay, and the entries before it stay applied.
pub fn replay(store: &mut TestStore, data: &[u8]) -> (r: Result<(), WalError>)
    requires
        old(store).wf(),
    ensures
        final(store).wf(),
        final(store)@ == plain_replay_from(old(store)@, data@, 0).0,
        plain_result_matches(r, plain_replay_from(old(store)@, data@, 0).1),
{
    let n = data.len();
    let mut c: usize = 0;
    while c <= n
        invariant
            n == data@.len(),
            store.wf(),
            plain_replay_from(old(store)@, data@, 0) == plain_replay_from(store@, data@, c as int),
        decreases n + 1 - c,
    {
        if n - c < 4 {
            return Ok(());
        }
        let b0 = data[c] as u32;
        let b1 = data[c + 1] as u32;
        let b2 = data[c + 2] as u32;
        let b3 = data[c + 3] as u32;
        let size = (b0 * 0x100_0000 + b1 * 0x1_0000 + b2 * 0x100 + b3) as usize;
        assert(size == be32_at(data@, c as int));
        if n - c - 4 < size {
            return Err(WalError::UnexpectedEof);
        }
        let start = c + 4;
        let end = start + size;
        let payload = vstd::slice::slice_subrange(data, start, end);
        let entry = from_bytes(payload)?;
        apply_entry(store, entry);
        c = end;
    }
    Ok(())
}

/// The unframed log of a sequence of entries, in order.
pub open spec fn plain_frames(es: Seq<EntryView>) -> Seq<u8>
    decreases es.len(),
{
    if es.len() == 0 {
        Seq::empty()
    } else {
        plain_frame(entry_bytes(es[0])) + plain_frames(es.drop_first())
    }
}

/// A payload that decodes to an entry as a whole has that entry at its
/// start.
proof fn lemma_prefix_of_whole(p: Seq<u8>)
    requires
        parse_entry(p) is Some,
    ensures
        parse_prefix(p) == parse_entry(p),
{
    reveal(parse_entry);
    reveal(parse_prefix);
}

proof fn lemma_plain_replay_frames(s: StoreView, pre: Seq<u8>, es: Seq<EntryView>)
    requires
        forall|i: int| 0 <= i < es.len() ==> fields_fit(#[trigger] es[i]) && entry_bytes(es[i]).len()
            <= u32::MAX,
    ensures
        plain_replay_from(s, pre + plain_frames(es), pre.len() as int) == plain_replay_from(
            apply_all(s, es),
            pre + plain_frames(es),
            pre.len() + plain_frames(es).len() as int,
        ),
    decreases es.len(),
{
    let d = pre + plain_frames(es);
    let c = pre.len() as int;
    if es.len() == 0 {
        assert(plain_frames(es) =~= Seq::<u8>::empty());
    } else {
        let e = es[0];
        let q = entry_bytes(e);
        let rest = es.drop_first();
        assert(fields_fit(es[0]) && entry_bytes(es[0]).len() <= u32::MAX);
        assert forall|i: int| 0 <= i < rest.len() implies fields_fit(#[trigger] rest[i])
            && entry_bytes(rest[i]).len() <= u32::MAX by {
            assert(rest[i] == es[i + 1]);
        }
        let pre2 = pre + plain_frame(q);
        assert(d =~= pre2 + plain_frames(rest));
        lemma_plain_replay_frames(apply(s, e), pre2, rest);
        assert(d =~= pre + be32(q.len() as u32) + (q + plain_frames(rest)));
        lemma_be32_at(pre, q.len() as u32, q + plain_frames(rest));
        assert(d.subrange(c + 4, c + 4 + q.len()) =~= q);
        lemma_parse_entry_bytes(e);
        lemma_prefix_of_whole(q);
        assert(plain_frames(es).len() == plain_frame(q).len() + plain_frames(rest).len());
    }
}

proof fn lemma_be32_at(pre: Seq<u8>, x: u32, post: Seq<u8>)
    ensures
        be32_at(pre + be32(x) + post, pre.len() as int) == x,
{
    let d = pre + be32(x) + post;
    let o = pre.len() as int;
    assert(d[o] == be32(x)[0]);
    assert(d[o + 1] == be32(x)[1]);
    assert(d[o + 2] == be32(x)[2]);
    assert(d[o + 3] == be32(x)[3]);
    lemma_be32_roundtrip(x);
}

/// A log written by this writer and replayed applies every entry in order
/// and ends without error.
pub proof fn law_plain_replay_of_written_log(s: StoreView, es: Seq<EntryView>)
    requires
        forall|i: int| 0 <= i < es.len() ==> fields_fit(#[trigger] es[i]) && entry_bytes(es[i]).len()
            <= u32::MAX,
    ensures
        plain_replay_from(s, plain_frames(es), 0) == (apply_all(s, es), PlainOutcome::Done),
{
    lemma_plain_replay_frames(s, Seq::empty(), es);
    assert(Seq::<u8>::empty() + plain_frames(es) =~= plain_frames(es));
}

} // verus!
