//! Streaming reader over the bytes of a WAL file.

use vstd::prelude::*;
use crate::text::{concat, decimal, decimal_text, hex8_text, hex_digits};
use crate::wal::checksum::{crc32, crc32_of};
use crate::wal::codec::{be32_at, read_u32};
use crate::wal::entry::{entry_error, parse_entry, WalEntry};
use crate::wal::error::WalError;
use crate::wal::format::{bad_magic_text, check_header, validate_header, HeaderCheck, WAL_HEADER_SIZE};
use crate::wal::options::WalOptions;

verus! {

/// What the bytes at an entry's start hold.
pub enum Frame {
    /// No bytes are left: a clean end of the log.
    End,
    /// The log ends inside the length, the checksum or the payload.
    Truncated,
    /// The length header exceeds the reader's limit.
    TooLarge { len: u32 },
    /// The payload does not match its stored checksum.
    Mismatch { stored: u32, computed: u32 },
    /// A whole payload whose checksum matches.
    Complete { payload: Seq<u8> },
}

/// The frame that starts at `c` in `d`, read with payload limit `limit`.
pub open spec fn frame_at(d: Seq<u8>, c: int, limit: int) -> Frame {
    if c < 0 || c >= d.len() {
        Frame::End
    } else if c + 4 > d.len() {
        Frame::Truncated
    } else if be32_at(d, c) > limit {
        Frame::TooLarge { len: be32_at(d, c) }
    } else if c + 8 > d.len() || c + 8 + be32_at(d, c) > d.len() {
        Frame::Truncated
    } else {
        let payload = d.subrange(c + 8, c + 8 + be32_at(d, c));
        if crc32_of(payload) != be32_at(d, c + 4) {
            Frame::Mismatch { stored: be32_at(d, c + 4), computed: crc32_of(payload) }
        } else {
            Frame::Complete { payload }
        }
    }
}

/// How far into `d` the stream has been consumed after reading that frame.
pub open spec fn frame_end(d: Seq<u8>, c: int, limit: int) -> int {
    match frame_at(d, c, limit) {
        Frame::End => c,
        Frame::Truncated => d.len() as int,
        Frame::TooLarge { .. } => c + 4,
        _ => c + 8 + be32_at(d, c),
    }
}

/// How a fill of a buffer from the stream ended.
pub enum ReadStatus {
    Eof,
    Partial,
    Complete,
}

/// Streaming reader for the bytes of a WAL file.
///
/// `cursor` is how far the underlying stream has been consumed; `position`
/// advances only over entries that were returned.
#[derive(Debug)]
pub struct WalReader {
    data: Vec<u8>,
    cursor: usize,
    position: u64,
    eof: bool,
    entry_size_limit: usize,
}

impl WalReader {
    /// The bytes being read.
    pub closed spec fn bytes(&self) -> Seq<u8> {
        self.data@
    }

    /// How far the underlying stream has been consumed.
    pub closed spec fn cursor(&self) -> int {
        self.cursor as int
    }

    /// The logical position: the end of the last entry returned.
    pub closed spec fn pos(&self) -> u64 {
        self.position
    }

    /// Whether a clean end of the log has been reached.
    pub closed spec fn at_eof(&self) -> bool {
        self.eof
    }

    /// The largest payload the reader accepts.
    pub closed spec fn limit(&self) -> usize {
        self.entry_size_limit
    }

    pub closed spec fn wf(&self) -> bool {
        WAL_HEADER_SIZE <= self.position <= self.cursor <= self.data@.len()
    }

    /// Opens a WAL held in `data` with the default maximum payload size, and
    /// validates its header.
    pub fn open(data: Vec<u8>) -> (r: Result<Self, WalError>)
        ensures
            match check_header(data@) {
                HeaderCheck::Valid => r matches Ok(rd) && rd.wf() && rd.bytes() == data@
                    && rd.cursor() == 8 && rd.pos() == 8 && !rd.at_eof() && rd.limit()
                    == 256 * 1024 * 1024,
                HeaderCheck::TooShort => r matches Err(WalError::InvalidHeader { reason })
                    && reason@ == "file too short to contain WAL header"@,
                HeaderCheck::BadMagic => r matches Err(WalError::InvalidHeader { reason })
                    && reason@ == bad_magic_text(data@[0], data@[1], data@[2], data@[3]),
                HeaderCheck::BadVersion { found: v } => r matches Err(
                    WalError::UnsupportedVersion { found, expected },
                ) && found == v && expected == 1,
            },
    {
        let limit = WalOptions::default().entry_size_limit;
        Self::open_with_options(data, limit)
    }

    /// Opens a WAL held in `data` with a custom maximum payload size.
    pub fn open_with_options(data: Vec<u8>, entry_size_limit: usize) -> (r: Result<
        Self,
        WalError,
    >)
        ensures
            match check_header(data@) {
                HeaderCheck::Valid => r matches Ok(rd) && rd.wf() && rd.bytes() == data@
                    && rd.cursor() == 8 && rd.pos() == 8 && !rd.at_eof() && rd.limit()
                    == entry_size_limit,
                HeaderCheck::TooShort => r matches Err(WalError::InvalidHeader { reason })
                    && reason@ == "file too short to contain WAL header"@,
                HeaderCheck::BadMagic => r matches Err(WalError::InvalidHeader { reason })
                    && reason@ == bad_magic_text(data@[0], data@[1], data@[2], data@[3]),
                HeaderCheck::BadVersion { found: v } => r matches Err(
                    WalError::UnsupportedVersion { found, expected },
                ) && found == v && expected == 1,
            },
    {
        validate_header(data.as_slice())?;
        Ok(WalReader {
            data,
            cursor: WAL_HEADER_SIZE,
            position: WAL_HEADER_SIZE as u64,
            eof: false,
            entry_size_limit,
        })
    }

    /// Current byte position of the reader.
    pub fn position(&self) -> (r: u64)
        ensures
            r == self.pos(),
    {
        self.position
    }

    /// Fills a buffer of `len` bytes from the stream, telling a clean end
    /// (nothing left) from a partial fill.
    pub fn read_all(&mut self, len: usize) -> (r: (ReadStatus, Vec<u8>))
        requires
            old(self).cursor() <= old(self).bytes().len(),
        ensures
            final(self).bytes() == old(self).bytes(),
            final(self).pos() == old(self).pos(),
            final(self).at_eof() == old(self).at_eof(),
            final(self).limit() == old(self).limit(),
            ({
                let c = old(self).cursor();
                let d = old(self).bytes();
                let f = *final(self);
                if len == 0 {
                    r.0 is Complete && r.1@ == Seq::<u8>::empty() && f.cursor() == c
                } else if c == d.len() {
                    r.0 is Eof && f.cursor() == c
                } else if c + len > d.len() {
                    r.0 is Partial && f.cursor() == d.len()
                } else {
                    r.0 is Complete && r.1@ == d.subrange(c, c + len) && f.cursor() == c + len
                }
            }),
    {
        let remaining = self.data.len() - self.cursor;
        if len == 0 {
            return (ReadStatus::Complete, Vec::new());
        }
        if remaining == 0 {
            return (ReadStatus::Eof, Vec::new());
        }
        if remaining < len {
            self.cursor = self.data.len();
            return (ReadStatus::Partial, Vec::new());
        }
        let start = self.cursor;
        let end = start + len;
        let bytes = vstd::slice::slice_to_vec(
            vstd::slice::slice_subrange(self.data.as_slice(), start, end),
        );
        self.cursor = end;
        (ReadStatus::Complete, bytes)
    }

    /// Returns the next entry, `None` at a clean end, or an error if the log
    /// is truncated or corrupt.
    pub fn next_entry(&mut self) -> (r: Result<Option<WalEntry>, WalError>)
        requires
            old(self).wf(),
        ensures
            final(self).wf(),
            final(self).bytes() == old(self).bytes(),
            final(self).limit() == old(self).limit(),
            ({
                let d = old(self).bytes();
                let c = old(self).cursor();
                let p = old(self).pos();
                let lim = old(self).limit() as int;
                let f = *final(self);
                if old(self).at_eof() {
                    r matches Ok(None) && f == *old(self)
                } else {
                    match frame_at(d, c, lim) {
                        Frame::End => r matches Ok(None) && f.at_eof() && f.cursor() == c
                            && f.pos() == p,
                        Frame::Truncated => r matches Err(WalError::UnexpectedEof) && !f.at_eof()
                            && f.cursor() == d.len() && f.pos() == p,
                        Frame::TooLarge { len } => r matches Err(
                            WalError::CorruptEntry { position, reason },
                        ) && position == p && reason@ == over_limit_text(len as nat, lim as nat)
                            && !f.at_eof() && f.cursor() == c + 4 && f.pos() == p,
                        Frame::Mismatch { stored, computed } => r matches Err(
                            WalError::CorruptEntry { position, reason },
                        ) && position == p && reason@ == checksum_text(stored, computed)
                            && !f.at_eof() && f.cursor() == frame_end(d, c, lim) && f.pos() == p,
                        Frame::Complete { payload } => !f.at_eof() && f.cursor() == frame_end(
                            d,
                            c,
                            lim,
                        ) && match parse_entry(payload) {
                            Some(e) => r matches Ok(Some(entry)) && entry@ == e && f.pos() == p
                                + 8 + payload.len(),
                            None => r matches Err(WalError::InvalidPayload(m)) && (entry_error(
                                payload,
                            ) is Some ==> m@ == entry_error(payload)->Some_0) && f.pos() == p,
                        },
                    }
                }
            }),
    {
        if self.eof {
            return Ok(None);
        }
        let ghost d = self.data@;
        let ghost c = self.cursor as int;
        let entry_start = self.position;

        // Length header.
        let (status, len_buf) = self.read_all(4);
        match status {
            ReadStatus::Eof => {
                self.eof = true;
                return Ok(None);
            },
            ReadStatus::Partial => {
                return Err(WalError::UnexpectedEof);
            },
            ReadStatus::Complete => {},
        }
        let payload_len_u32 = match read_u32(len_buf.as_slice(), 0) {
            Ok(v) => v,
            Err(e) => return Err(e),
        };
        assert(payload_len_u32 == be32_at(d, c)) by {
            assert(len_buf@[0] == d[c]);
            assert(len_buf@[1] == d[c + 1]);
            assert(len_buf@[2] == d[c + 2]);
            assert(len_buf@[3] == d[c + 3]);
        }
        let payload_len = payload_len_u32 as usize;
        if payload_len > self.entry_size_limit {
            return Err(
                WalError::CorruptEntry {
                    position: entry_start,
                    reason: limit_reason(payload_len, self.entry_size_limit),
                },
            );
        }

        // Checksum.
        let (status, cksum_buf) = self.read_all(4);
        match status {
            ReadStatus::Complete => {},
            _ => {
                return Err(WalError::UnexpectedEof);
            },
        }
        let stored_checksum = match read_u32(cksum_buf.as_slice(), 0) {
            Ok(v) => v,
            Err(e) => return Err(e),
        };
        assert(stored_checksum == be32_at(d, c + 4)) by {
            assert(cksum_buf@[0] == d[c + 4]);
            assert(cksum_buf@[1] == d[c + 5]);
            assert(cksum_buf@[2] == d[c + 6]);
            assert(cksum_buf@[3] == d[c + 7]);
        }

        // Payload.
        let (status, payload) = self.read_all(payload_len);
        match status {
            ReadStatus::Complete => {},
            _ => {
                return Err(WalError::UnexpectedEof);
            },
        }
        let computed_checksum = crc32(payload.as_slice());
        if computed_checksum != stored_checksum {
            return Err(
                WalError::CorruptEntry {
                    position: entry_start,
                    reason: checksum_reason(stored_checksum, computed_checksum),
                },
            );
        }
        assert(payload@ == d.subrange(c + 8, c + 8 + be32_at(d, c)));
        assert(frame_at(d, c, self.entry_size_limit as int) == (Frame::Complete { payload: payload@ }));
        assert(frame_end(d, c, self.entry_size_limit as int) == c + 8 + payload@.len());
        let entry = WalEntry::from_bytes(payload.as_slice())?;
        self.position = self.position + 8 + payload_len as u64;
        Ok(Some(entry))
    }
}

/// The reason given for a payload over the limit.
pub open spec fn over_limit_text(len: nat, limit: nat) -> Seq<char> {
    "payload length "@ + decimal(len) + " exceeds configured limit "@ + decimal(limit)
}

/// The reason given for a checksum mismatch: both checksums in hexadecimal.
pub open spec fn checksum_text(stored: u32, computed: u32) -> Seq<char> {
    "checksum mismatch: expected "@ + hex_digits(stored as nat, 8) + ", found "@ + hex_digits(
        computed as nat,
        8,
    )
}

pub(crate) fn limit_reason(len: usize, limit: usize) -> (r: String)
    ensures
        r@ == over_limit_text(len as nat, limit as nat),
{
    let a = decimal_text(len as u64);
    let b = decimal_text(limit as u64);
    let t = concat("payload length ", a.as_str());
    let t = concat(t.as_str(), " exceeds configured limit ");
    concat(t.as_str(), b.as_str())
}

fn checksum_reason(stored: u32, computed: u32) -> (r: String)
    ensures
        r@ == checksum_text(stored, computed),
{
    let a = hex8_text(stored);
    let b = hex8_text(computed);
    let t = concat("checksum mismatch: expected ", a.as_str());
    let t = concat(t.as_str(), ", found ");
    concat(t.as_str(), b.as_str())
}

} // verus!
