//! The WAL of the event dispatcher: one writer, created once, that frames
//! the payload of each logged storage event.

use vstd::prelude::*;
use crate::ewal::WalEntry;
use crate::wal::error::WalError;
use crate::wal::format::{bad_magic_text, check_header, header_bytes, HeaderCheck};
use crate::wal::writer::{frame, WalWriter};

verus! {

/// The frames of a sequence of payloads, in order.
pub open spec fn payload_frames(ps: Seq<Seq<u8>>) -> Seq<u8>
    decreases ps.len(),
{
    if ps.len() == 0 {
        Seq::empty()
    } else {
        frame(ps[0]) + payload_frames(ps.drop_first())
    }
}

/// A payload that a writer accepts under `limit`.
pub open spec fn payload_fits(p: Seq<u8>, limit: int) -> bool {
    p.len() <= limit && p.len() <= u32::MAX
}

/// How many leading payloads fit under `limit`.
pub open spec fn fitting_payloads(ps: Seq<Seq<u8>>, limit: int) -> nat
    decreases ps.len(),
{
    if ps.len() == 0 {
        0
    } else if payload_fits(ps[0], limit) {
        1 + fitting_payloads(ps.drop_first(), limit)
    } else {
        0
    }
}

/// The payloads of a slice of records.
pub open spec fn payloads(es: Seq<WalEntry>) -> Seq<Seq<u8>> {
    es.map_values(|e: WalEntry| e.payload@)
}

proof fn lemma_payload_frames_push(ps: Seq<Seq<u8>>, p: Seq<u8>)
    ensures
        payload_frames(ps.push(p)) == payload_frames(ps) + frame(p),
    decreases ps.len(),
{
    if ps.len() == 0 {
        assert(ps.push(p).drop_first() =~= Seq::<Seq<u8>>::empty());
        assert(payload_frames(Seq::<Seq<u8>>::empty()) =~= Seq::<u8>::empty());
        assert(payload_frames(ps.push(p)) =~= payload_frames(ps) + frame(p));
    } else {
        assert(ps.push(p).drop_first() =~= ps.drop_first().push(p));
        lemma_payload_frames_push(ps.drop_first(), p);
        assert(payload_frames(ps.push(p)) =~= payload_frames(ps) + frame(p));
    }
}

proof fn lemma_payload_frames_take_bound(ps: Seq<Seq<u8>>, k: int)
    requires
        0 <= k <= ps.len(),
    ensures
        payload_frames(ps.take(k)).len() <= payload_frames(ps).len(),
    decreases ps.len() - k,
{
    if k < ps.len() {
        lemma_payload_frames_take_bound(ps, k + 1);
        lemma_payload_frames_push(ps.take(k), ps[k]);
        assert(ps.take(k).push(ps[k]) =~= ps.take(k + 1));
    } else {
        assert(ps.take(k) =~= ps);
    }
}

proof fn lemma_fitting_payloads_le(ps: Seq<Seq<u8>>, limit: int)
    ensures
        fitting_payloads(ps, limit) <= ps.len(),
    decreases ps.len(),
{
    if ps.len() > 0 {
        lemma_fitting_payloads_le(ps.drop_first(), limit);
    }
}

proof fn lemma_fitting_payloads(ps: Seq<Seq<u8>>, limit: int, k: int)
    requires
        0 <= k <= ps.len(),
        forall|i: int| 0 <= i < k ==> payload_fits(#[trigger] ps[i], limit),
    ensures
        k <= fitting_payloads(ps, limit) <= ps.len(),
        k < ps.len() && !payload_fits(ps[k], limit) ==> fitting_payloads(ps, limit) == k,
    decreases k,
{
    lemma_fitting_payloads_le(ps, limit);
    if k > 0 {
        assert forall|i: int| 0 <= i < k - 1 implies payload_fits(
            #[trigger] ps.drop_first()[i],
            limit,
        ) by {
            assert(ps.drop_first()[i] == ps[i + 1]);
        }
        lemma_fitting_payloads(ps.drop_first(), limit, k - 1);
        if k < ps.len() {
            assert(ps.drop_first()[k - 1] == ps[k]);
        }
    }
}

/// The error of an operation on a manager with no writer.
pub open spec fn not_created(r: WalError) -> bool {
    r matches WalError::InvalidPayload(m) && m@ == "WAL writer has not been created"@
}

fn no_writer() -> (r: WalError)
    ensures
        not_created(r),
{
    WalError::InvalidPayload(String::from_str("WAL writer has not been created"))
}

/// Owns the dispatcher's WAL writer and the path of its file, once
/// created.
pub struct WalManager {
    writer: Option<WalWriter>,
    path: String,
}

impl WalManager {
    /// Whether the writer was created.
    pub closed spec fn created(&self) -> bool {
        self.writer is Some
    }

    /// The writer, once created.
    pub closed spec fn the_writer(&self) -> WalWriter {
        self.writer->Some_0
    }

    /// The path of the WAL file, once created.
    pub closed spec fn file(&self) -> Seq<char> {
        self.path@
    }

    /// A manager without a writer.
    pub fn default() -> (r: Self)
        ensures
            !r.created(),
    {
        WalManager { writer: None, path: String::new() }
    }

    /// Creates the writer for the file at `path`, whose contents are
    /// `existing` (`None` when there is no file). Only one writer is ever
    /// created.
    pub fn create_writer(&mut self, path: String, existing: Option<Vec<u8>>) -> (r: Result<(), WalError>)
        ensures
            old(self).created() ==> (r matches Err(WalError::InvalidPayload(m)) && m@
                == "WAL writer already created"@ && *final(self) == *old(self)),
            !old(self).created() ==> match existing {
                Some(d) if d@.len() > 0 => match check_header(d@) {
                    HeaderCheck::Valid => r is Ok && final(self).created() && final(self).file()
                        == path@ && final(self).the_writer().pending() == Seq::<u8>::empty()
                        && final(self).the_writer().pos() == d@.len()
                        && final(self).the_writer().limit() == 256 * 1024 * 1024
                        && final(self).the_writer().syncs(),
                    HeaderCheck::BadVersion { found: v } => r matches Err(
                        WalError::UnsupportedVersion { found, expected },
                    ) && found == v && expected == 1 && !final(self).created(),
                    HeaderCheck::TooShort => r matches Err(WalError::InvalidHeader { reason })
                        && reason@ == "file too short to contain WAL header"@ && !final(self).created(),
                    HeaderCheck::BadMagic => r matches Err(WalError::InvalidHeader { reason })
                        && reason@ == bad_magic_text(d@[0], d@[1], d@[2], d@[3]) && !final(self).created(),
                },
                _ => r is Ok && final(self).created() && final(self).file() == path@
                    && final(self).the_writer().pending() == header_bytes()
                    && final(self).the_writer().pos() == 8 && final(self).the_writer().limit() == 256
                    * 1024 * 1024 && final(self).the_writer().syncs(),
            },
    {
        if self.writer.is_some() {
            return Err(WalError::InvalidPayload(String::from_str("WAL writer already created")));
        }
        let w = WalWriter::create(existing)?;
        self.writer = Some(w);
        self.path = path;
        Ok(())
    }

    /// Returns `true` once the writer was created.
    pub fn is_initialized(&self) -> (r: bool)
        ensures
            r == self.created(),
    {
        self.writer.is_some()
    }

    /// Appends one record to the log. The log holds each record's payload
    /// (the event as it was published), framed like every WAL entry: its
    /// length, its CRC-32, then the bytes. The key and operation code that
    /// the dispatcher read from the payload are not written separately, as
    /// the payload holds them.
    pub fn append(&mut self, entry: &WalEntry) -> (r: Result<(), WalError>)
        requires
            old(self).created() ==> old(self).the_writer().pos() + frame(entry.payload@).len() <= u64::MAX,
        ensures
            final(self).created() == old(self).created(),
            final(self).file() == old(self).file(),
            !old(self).created() ==> (r matches Err(e) && not_created(e)),
            old(self).created() ==> ({
                let w = old(self).the_writer();
                let n = final(self).the_writer();
                &&& n.limit() == w.limit()
                &&& n.syncs() == w.syncs()
                &&& payload_fits(entry.payload@, w.limit() as int) ==> r is Ok && n.pending()
                    == w.pending() + frame(entry.payload@) && n.pos() == w.pos() + frame(
                    entry.payload@,
                ).len()
                &&& !payload_fits(entry.payload@, w.limit() as int) ==> (r matches Err(
                    WalError::InvalidPayload(_),
                ) && n == w)
            }),
    {
        match &mut self.writer {
            Some(w) => w.append_payload(entry.payload.as_slice()),
            None => Err(no_writer()),
        }
    }

    /// Appends the framed payloads of a batch of records, in order, until
    /// one is larger than the limit; that one fails the batch, and the
    /// payloads before it stay framed.
    pub fn append_batch(&mut self, entries: &[WalEntry]) -> (r: Result<(), WalError>)
        requires
            old(self).created() ==> old(self).the_writer().pos() + payload_frames(payloads(entries@)).len() <= u64::MAX,
        ensures
            final(self).created() == old(self).created(),
            final(self).file() == old(self).file(),
            !old(self).created() ==> (r matches Err(e) && not_created(e)),
            old(self).created() ==> ({
                let w = old(self).the_writer();
                let n = final(self).the_writer();
                let ps = payloads(entries@);
                let k = fitting_payloads(ps, w.limit() as int);
                &&& n.limit() == w.limit()
                &&& n.syncs() == w.syncs()
                &&& n.pending() == w.pending() + payload_frames(ps.take(k as int))
                &&& n.pos() == w.pos() + payload_frames(ps.take(k as int)).len()
                &&& k == ps.len() ==> r is Ok
                &&& k < ps.len() ==> (r matches Err(WalError::InvalidPayload(_)))
            }),
    {
        if self.writer.is_none() {
            return Err(no_writer());
        }
        let ghost ps = payloads(entries@);
        let ghost w0 = self.the_writer();
        let ghost lim = w0.limit() as int;
        let mut i: usize = 0;
        while i < entries.len()
            invariant
                i <= entries@.len(),
                ps == payloads(entries@),
                self.created(),
                old(self).created(),
                self.file() == old(self).file(),
                w0 == old(self).the_writer(),
                lim == w0.limit(),
                self.the_writer().limit() == w0.limit(),
                self.the_writer().syncs() == w0.syncs(),
                forall|j: int| 0 <= j < i ==> payload_fits(#[trigger] ps[j], lim),
                self.the_writer().pending() == w0.pending() + payload_frames(ps.take(i as int)),
                self.the_writer().pos() == w0.pos() + payload_frames(ps.take(i as int)).len(),
                w0.pos() + payload_frames(ps).len() <= u64::MAX,
            decreases entries@.len() - i,
        {
            proof {
                lemma_payload_frames_take_bound(ps, i as int + 1);
                lemma_payload_frames_push(ps.take(i as int), ps[i as int]);
                assert(ps.take(i as int).push(ps[i as int]) =~= ps.take(i as int + 1));
                assert(ps[i as int] == entries@[i as int].payload@);
            }
            let r = self.append(&entries[i]);
            if r.is_err() {
                proof {
                    lemma_fitting_payloads(ps, lim, i as int);
                }
                return r;
            }
            i = i + 1;
        }
        proof {
            lemma_fitting_payloads(ps, lim, i as int);
            assert(ps.take(i as int) =~= ps);
        }
        Ok(())
    }

    /// Hands out the framed bytes not yet written, for the caller to write
    /// to the file (and to sync it, where the writer syncs on flush).
    pub fn flush(&mut self) -> (r: Result<Vec<u8>, WalError>)
        ensures
            final(self).created() == old(self).created(),
            final(self).file() == old(self).file(),
            !old(self).created() ==> (r matches Err(e) && not_created(e)),
            old(self).created() ==> (r matches Ok(bytes) && bytes@ == old(self).the_writer().pending()
                && final(self).the_writer().pending() == Seq::<u8>::empty()
                && final(self).the_writer().pos() == old(self).the_writer().pos()
                && final(self).the_writer().limit() == old(self).the_writer().limit()
                && final(self).the_writer().syncs() == old(self).the_writer().syncs()),
    {
        match &mut self.writer {
            Some(w) => Ok(w.take_pending()),
            None => Err(no_writer()),
        }
    }

    /// Checks that there is a file to sync; the caller syncs it.
    pub fn sync(&mut self) -> (r: Result<(), WalError>)
        ensures
            *final(self) == *old(self),
            old(self).created() ==> r is Ok,
            !old(self).created() ==> (r matches Err(e) && not_created(e)),
    {
        if self.writer.is_some() {
            Ok(())
        } else {
            Err(no_writer())
        }
    }

    /// Logical byte position of the next write, header included.
    pub fn position(&self) -> (r: Result<u64, WalError>)
        ensures
            self.created() ==> r == Ok::<u64, WalError>(self.the_writer().pos()),
            !self.created() ==> (r matches Err(e) && not_created(e)),
    {
        match &self.writer {
            Some(w) => Ok(w.position()),
            None => Err(no_writer()),
        }
    }

    /// Path of the WAL file.
    pub fn path(&self) -> (r: Result<String, WalError>)
        ensures
            self.created() ==> (r matches Ok(p) && p@ == self.file()),
            !self.created() ==> (r matches Err(e) && not_created(e)),
    {
        match &self.writer {
            Some(_) => Ok(self.path.clone()),
            None => Err(no_writer()),
        }
    }
}

impl Default for WalManager {
    fn default() -> (r: Self)
        ensures
            !r.created(),
    {
        WalManager::default()
    }
}

} // verus!
