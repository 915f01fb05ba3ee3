//! Framing entries for an append-only WAL file.
//!
//! The writer decides what bytes the file gets; the bytes it produces are
//! taken out with [`WalWriter::take_pending`] and written by the caller.

use vstd::prelude::*;
use crate::text::{concat, decimal, decimal_text};
use crate::wal::reader::{limit_reason, over_limit_text};
use crate::wal::checksum::{crc32, crc32_of};
use crate::wal::codec::be32;
use crate::wal::entry::{entry_bytes, EntryView, WalEntry};
use crate::wal::error::WalError;
use crate::wal::format::{bad_magic_text, check_header, header_bytes, validate_header, write_header, HeaderCheck};
use crate::wal::options::WalOptions;

verus! {

/// The frame of one payload: its length, its CRC-32, then the payload.
#[verifier::opaque]
pub open spec fn frame(p: Seq<u8>) -> Seq<u8> {
    be32(p.len() as u32) + be32(crc32_of(p)) + p
}

/// The frames of a sequence of entries, in order.
pub open spec fn frames(es: Seq<EntryView>) -> Seq<u8>
    decreases es.len(),
{
    if es.len() == 0 {
        Seq::empty()
    } else {
        frame(entry_bytes(es[0])) + frames(es.drop_first())
    }
}

/// An entry that the writer accepts under `limit`.
pub open spec fn entry_fits(e: EntryView, limit: int) -> bool {
    entry_bytes(e).len() <= limit && entry_bytes(e).len() <= u32::MAX
}

/// How many leading entries fit under `limit`.
pub open spec fn fitting_prefix(es: Seq<EntryView>, limit: int) -> nat
    decreases es.len(),
{
    if es.len() == 0 {
        0
    } else if entry_fits(es[0], limit) {
        1 + fitting_prefix(es.drop_first(), limit)
    } else {
        0
    }
}

/// The views of a slice of entries.
pub open spec fn views(es: Seq<WalEntry>) -> Seq<EntryView> {
    es.map_values(|e: WalEntry| e@)
}

proof fn lemma_frames_push(es: Seq<EntryView>, e: EntryView)
    ensures
        frames(es.push(e)) == frames(es) + frame(entry_bytes(e)),
    decreases es.len(),
{
    if es.len() == 0 {
        assert(es.push(e).drop_first() =~= Seq::<EntryView>::empty());
        assert(frames(Seq::<EntryView>::empty()) =~= Seq::<u8>::empty());
        assert(frames(es.push(e)) =~= frames(es) + frame(entry_bytes(e)));
    } else {
        assert(es.push(e).drop_first() =~= es.drop_first().push(e));
        lemma_frames_push(es.drop_first(), e);
        assert(frames(es.push(e)) =~= frames(es) + frame(entry_bytes(e)));
    }
}

proof fn lemma_fitting_prefix(es: Seq<EntryView>, limit: int, k: int)
    requires
        0 <= k <= es.len(),
        forall|i: int| 0 <= i < k ==> entry_fits(#[trigger] es[i], limit),
    ensures
        k <= fitting_prefix(es, limit) <= es.len(),
        k < es.len() && !entry_fits(es[k], limit) ==> fitting_prefix(es, limit) == k,
    decreases k,
{
    lemma_fitting_prefix_le(es, limit);
    if k > 0 {
        assert forall|i: int| 0 <= i < k - 1 implies entry_fits(
            #[trigger] es.drop_first()[i],
            limit,
        ) by {
            assert(es.drop_first()[i] == es[i + 1]);
        }
        lemma_fitting_prefix(es.drop_first(), limit, k - 1);
        if k < es.len() {
            assert(es.drop_first()[k - 1] == es[k]);
        }
    }
}

proof fn lemma_fitting_prefix_le(es: Seq<EntryView>, limit: int)
    ensures
        fitting_prefix(es, limit) <= es.len(),
    decreases es.len(),
{
    if es.len() > 0 {
        lemma_fitting_prefix_le(es.drop_first(), limit);
    }
}

/// Append-only writer for a WAL: it frames entries and keeps the bytes
/// that are still to be written to the file.
pub struct WalWriter {
    options: WalOptions,
    position: u64,
    pending: Vec<u8>,
}

impl WalWriter {
    /// The bytes produced and not yet taken out.
    pub closed spec fn pending(&self) -> Seq<u8> {
        self.pending@
    }

    /// The logical byte position of the next write, header included.
    pub closed spec fn pos(&self) -> u64 {
        self.position
    }

    /// The largest payload the writer accepts.
    pub closed spec fn limit(&self) -> usize {
        self.options.entry_size_limit
    }

    /// Whether each flush should also sync the file to disk.
    pub closed spec fn syncs(&self) -> bool {
        self.options.sync_on_flush
    }

    /// Starts a writer at the end of a WAL file. `existing` is the file's
    /// contents, or `None` when there is no file. A missing or empty file
    /// gets a header; a non-empty one must start with a valid header.
    pub fn open(existing: Option<Vec<u8>>, options: WalOptions) -> (r: Result<Self, WalError>)
        ensures
            match existing {
                Some(d) if d@.len() > 0 => match check_header(d@) {
                    HeaderCheck::Valid => r matches Ok(w) && w.pending() == Seq::<u8>::empty()
                        && w.pos() == d@.len() && w.limit() == options.entry_size_limit
                        && w.syncs() == options.sync_on_flush,
                    HeaderCheck::BadVersion { found: v } => r matches Err(
                        WalError::UnsupportedVersion { found, expected },
                    ) && found == v && expected == 1,
                    HeaderCheck::TooShort => r matches Err(WalError::InvalidHeader { reason })
                        && reason@ == "file too short to contain WAL header"@,
                    HeaderCheck::BadMagic => r matches Err(WalError::InvalidHeader { reason })
                        && reason@ == bad_magic_text(d@[0], d@[1], d@[2], d@[3]),
                },
                _ => r matches Ok(w) && w.pending() == header_bytes() && w.pos() == 8
                    && w.limit() == options.entry_size_limit && w.syncs()
                    == options.sync_on_flush,
            },
    {
        let mut pending = Vec::new();
        let position: u64 = match existing {
            Some(d) if d.len() > 0 => {
                validate_header(d.as_slice())?;
                d.len() as u64
            },
            _ => {
                write_header(&mut pending);
                8
            },
        };
        Ok(WalWriter { options, position, pending })
    }

    /// Convenience constructor with default options.
    pub fn create(existing: Option<Vec<u8>>) -> (r: Result<Self, WalError>)
        ensures
            match existing {
                Some(d) if d@.len() > 0 => match check_header(d@) {
                    HeaderCheck::Valid => r matches Ok(w) && w.pending() == Seq::<u8>::empty()
                        && w.pos() == d@.len() && w.limit() == 256 * 1024 * 1024 && w.syncs(),
                    HeaderCheck::BadVersion { found: v } => r matches Err(
                        WalError::UnsupportedVersion { found, expected },
                    ) && found == v && expected == 1,
                    HeaderCheck::TooShort => r matches Err(WalError::InvalidHeader { reason })
                        && reason@ == "file too short to contain WAL header"@,
                    HeaderCheck::BadMagic => r matches Err(WalError::InvalidHeader { reason })
                        && reason@ == bad_magic_text(d@[0], d@[1], d@[2], d@[3]),
                },
                _ => r matches Ok(w) && w.pending() == header_bytes() && w.pos() == 8 && w.limit()
                    == 256 * 1024 * 1024 && w.syncs(),
            },
    {
        Self::open(existing, WalOptions::default())
    }

    /// Appends a single entry.
    pub fn append(&mut self, entry: &WalEntry) -> (r: Result<(), WalError>)
        requires
            old(self).pos() + frame(entry_bytes(entry@)).len() <= u64::MAX,
        ensures
            final(self).limit() == old(self).limit(),
            final(self).syncs() == old(self).syncs(),
            entry_fits(entry@, old(self).limit() as int) ==> (r is Ok && final(self).pending()
                == old(self).pending() + frame(entry_bytes(entry@)) && final(self).pos()
                == old(self).pos() + frame(entry_bytes(entry@)).len()),
            !entry_fits(entry@, old(self).limit() as int) ==> (r matches Err(
                WalError::InvalidPayload(_),
            ) && *final(self) == *old(self)),
    {
        self.append_one(entry)
    }

    fn append_one(&mut self, entry: &WalEntry) -> (r: Result<(), WalError>)
        requires
            old(self).pos() + frame(entry_bytes(entry@)).len() <= u64::MAX,
        ensures
            final(self).limit() == old(self).limit(),
            final(self).syncs() == old(self).syncs(),
            entry_fits(entry@, old(self).limit() as int) ==> (r is Ok && final(self).pending()
                == old(self).pending() + frame(entry_bytes(entry@)) && final(self).pos()
                == old(self).pos() + frame(entry_bytes(entry@)).len()),
            !entry_fits(entry@, old(self).limit() as int) ==> (r matches Err(
                WalError::InvalidPayload(_),
            ) && *final(self) == *old(self)),
    {
        let payload = entry.to_bytes();
        self.append_payload(payload.as_slice())
    }

    /// Frames a payload: its length, its CRC-32, then its bytes. A payload
    /// larger than the limit or than `u32::MAX` is refused.
    pub fn append_payload(&mut self, payload: &[u8]) -> (r: Result<(), WalError>)
        requires
            old(self).pos() + frame(payload@).len() <= u64::MAX,
        ensures
            final(self).limit() == old(self).limit(),
            final(self).syncs() == old(self).syncs(),
            payload@.len() <= old(self).limit() && payload@.len() <= u32::MAX ==> (r is Ok
                && final(self).pending() == old(self).pending() + frame(payload@) && final(self).pos() == old(self).pos() + frame(payload@).len()),
            payload@.len() > old(self).limit() ==> (r matches Err(WalError::InvalidPayload(m))
                && m@ == over_limit_text(payload@.len(), old(self).limit() as nat) && *final(self)
                == *old(self)),
            payload@.len() <= old(self).limit() && payload@.len() > u32::MAX ==> (r matches Err(
                WalError::InvalidPayload(m),
            ) && m@ == over_max_text(payload@.len()) && *final(self) == *old(self)),
    {
        proof {
            reveal(frame);
        }
        let len = payload.len();
        if len > self.options.entry_size_limit {
            return Err(WalError::InvalidPayload(limit_reason(len, self.options.entry_size_limit)));
        }
        if len > 0xFFFF_FFFFusize {
            return Err(WalError::InvalidPayload(over_max_message(len)));
        }
        assert(frame(payload@).len() == 8 + payload@.len());
        let checksum = crc32(payload);
        push_be32(&mut self.pending, len as u32);
        push_be32(&mut self.pending, checksum);
        let mut i: usize = 0;
        let ghost start = self.pending@;
        while i < payload.len()
            invariant
                i <= payload@.len(),
                self.pending@ == start + payload@.subrange(0, i as int),
                self.position == old(self).position,
                self.options == old(self).options,
            decreases payload@.len() - i,
        {
            self.pending.push(payload[i]);
            i = i + 1;
            assert(self.pending@ =~= start + payload@.subrange(0, i as int));
        }
        assert(payload@.subrange(0, i as int) =~= payload@);
        self.position = self.position + 8 + len as u64;
        assert(self.pending@ =~= old(self).pending@ + frame(payload@));
        Ok(())
    }

    /// Appends a batch of entries. Entries are framed in order until one is
    /// larger than the limit; that one fails the batch, and the entries before
    /// it stay framed.
    pub fn append_batch(&mut self, entries: &[WalEntry]) -> (r: Result<(), WalError>)
        requires
            old(self).pos() + frames(views(entries@)).len() <= u64::MAX,
        ensures
            final(self).limit() == old(self).limit(),
            final(self).syncs() == old(self).syncs(),
            ({
                let es = views(entries@);
                let k = fitting_prefix(es, old(self).limit() as int);
                &&& final(self).pending() == old(self).pending() + frames(es.take(k as int))
                &&& final(self).pos() == old(self).pos() + frames(es.take(k as int)).len()
                &&& k == es.len() ==> r is Ok
                &&& k < es.len() ==> r matches Err(WalError::InvalidPayload(_))
            }),
    {
        let ghost es = views(entries@);
        let ghost lim = self.options.entry_size_limit as int;
        let mut i: usize = 0;
        while i < entries.len()
            invariant
                i <= entries@.len(),
                es == views(entries@),
                lim == self.limit(),
                self.limit() == old(self).limit(),
                self.syncs() == old(self).syncs(),
                forall|j: int| 0 <= j < i ==> entry_fits(#[trigger] es[j], lim),
                self.pending() == old(self).pending() + frames(es.take(i as int)),
                self.pos() == old(self).pos() + frames(es.take(i as int)).len(),
                old(self).pos() + frames(es).len() <= u64::MAX,
            decreases entries@.len() - i,
        {
            proof {
                lemma_frames_take_bound(es, i as int + 1);
                lemma_frames_push(es.take(i as int), es[i as int]);
                assert(es.take(i as int).push(es[i as int]) =~= es.take(i as int + 1));
            }
            let r = self.append_one(&entries[i]);
            if r.is_err() {
                proof {
                    lemma_fitting_prefix(es, lim, i as int);
                }
                return r;
            }
            i = i + 1;
        }
        proof {
            lemma_fitting_prefix(es, lim, i as int);
            assert(es.take(i as int) =~= es);
        }
        Ok(())
    }

    /// Hands out the bytes produced so far, to be written to the file.
    pub fn take_pending(&mut self) -> (r: Vec<u8>)
        ensures
            r@ == old(self).pending(),
            final(self).pending() == Seq::<u8>::empty(),
            final(self).pos() == old(self).pos(),
            final(self).limit() == old(self).limit(),
            final(self).syncs() == old(self).syncs(),
    {
        let mut out = Vec::new();
        std::mem::swap(&mut out, &mut self.pending);
        out
    }

    /// Whether each flush should also sync the file to disk.
    pub fn sync_on_flush(&self) -> (r: bool)
        ensures
            r == self.syncs(),
    {
        self.options.sync_on_flush
    }

    /// Logical byte position of the next write (including the WAL header).
    pub fn position(&self) -> (r: u64)
        ensures
            r == self.pos(),
    {
        self.position
    }
}

/// The frames of a prefix are no longer than those of the whole sequence.
proof fn lemma_frames_take_bound(es: Seq<EntryView>, k: int)
    requires
        0 <= k <= es.len(),
    ensures
        frames(es.take(k)).len() <= frames(es).len(),
    decreases es.len() - k,
{
    if k < es.len() {
        lemma_frames_take_bound(es, k + 1);
        lemma_frames_push(es.take(k), es[k]);
        assert(es.take(k).push(es[k]) =~= es.take(k + 1));
    } else {
        assert(es.take(k) =~= es);
    }
}

fn push_be32(buf: &mut Vec<u8>, x: u32)
    ensures
        final(buf)@ == old(buf)@ + be32(x),
{
    buf.push((x / 0x100_0000) as u8);
    buf.push(((x / 0x1_0000) % 0x100) as u8);
    buf.push(((x / 0x100) % 0x100) as u8);
    buf.push((x % 0x100) as u8);
    assert(final(buf)@ =~= old(buf)@ + be32(x));
}

/// The message for a payload beyond what a frame's length can hold.
pub open spec fn over_max_text(len: nat) -> Seq<char> {
    "payload length "@ + decimal(len) + " exceeds maximum 4294967295"@
}

fn over_max_message(len: usize) -> (r: String)
    ensures
        r@ == over_max_text(len as nat),
{
    let a = decimal_text(len as u64);
    let t = concat("payload length ", a.as_str());
    concat(t.as_str(), " exceeds maximum 4294967295")
}

} // verus!
