//! The WAL file header and the sizes of the per-entry framing.

use vstd::prelude::*;
use crate::text::{concat, decimal, decimal_text};
use crate::wal::error::WalError;

verus! {

/// Magic bytes at the start of every WAL file: `b"TRDB"`.
pub const WAL_MAGIC: [u8; 4] = [0x54, 0x52, 0x44, 0x42];

/// Current WAL format version.
pub const WAL_VERSION: u8 = 1;

/// Total size of the WAL file header, in bytes.
pub const WAL_HEADER_SIZE: usize = 8;

/// Size of the length prefix for each entry payload.
pub const ENTRY_LEN_SIZE: usize = 4;

/// Size of the CRC-32 checksum stored with each entry.
pub const ENTRY_CKSUM_SIZE: usize = 4;

/// Total per-entry overhead (length + checksum).
pub const ENTRY_OVERHEAD: usize = ENTRY_LEN_SIZE + ENTRY_CKSUM_SIZE;

/// The magic bytes as a sequence.
pub open spec fn magic() -> Seq<u8> {
    seq![0x54u8, 0x52u8, 0x44u8, 0x42u8]
}

/// The header that starts every WAL: magic, version, flags, reserved.
pub open spec fn header_bytes() -> Seq<u8> {
    magic() + seq![1u8, 0u8, 0u8, 0u8]
}

/// Appends a WAL file header to `buf`.
pub fn write_header(buf: &mut Vec<u8>)
    ensures
        final(buf)@ == old(buf)@ + header_bytes(),
{
    buf.push(WAL_MAGIC[0]);
    buf.push(WAL_MAGIC[1]);
    buf.push(WAL_MAGIC[2]);
    buf.push(WAL_MAGIC[3]);
    buf.push(WAL_VERSION);
    buf.push(0);
    buf.push(0);
    buf.push(0);
    assert(final(buf)@ =~= old(buf)@ + header_bytes());
}

/// What a WAL's leading bytes say about its header.
pub enum HeaderCheck {
    TooShort,
    BadMagic,
    BadVersion { found: u8 },
    Valid,
}

pub open spec fn check_header(d: Seq<u8>) -> HeaderCheck {
    if d.len() < 8 {
        HeaderCheck::TooShort
    } else if d.subrange(0, 4) != magic() {
        HeaderCheck::BadMagic
    } else if d[4] != 1u8 {
        HeaderCheck::BadVersion { found: d[4] }
    } else {
        HeaderCheck::Valid
    }
}

/// Checks the header at the start of `data`: its magic and its version.
/// Only the first `WAL_HEADER_SIZE` bytes are read.
pub fn validate_header(data: &[u8]) -> (r: Result<(), WalError>)
    ensures
        match check_header(data@) {
            HeaderCheck::TooShort => r matches Err(WalError::InvalidHeader { reason }) && reason@
                == "file too short to contain WAL header"@,
            HeaderCheck::BadMagic => r matches Err(WalError::InvalidHeader { reason }) && reason@
                == bad_magic_text(data@[0], data@[1], data@[2], data@[3]),
            HeaderCheck::BadVersion { found: v } => r matches Err(
                WalError::UnsupportedVersion { found, expected },
            ) && found == v && expected == 1,
            HeaderCheck::Valid => r is Ok,
        },
{
    if data.len() < WAL_HEADER_SIZE {
        return Err(
            WalError::InvalidHeader {
                reason: String::from_str("file too short to contain WAL header"),
            },
        );
    }
    if data[0] != WAL_MAGIC[0] || data[1] != WAL_MAGIC[1] || data[2] != WAL_MAGIC[2] || data[3]
        != WAL_MAGIC[3] {
        proof {
            assert(data@.subrange(0, 4) != magic()) by {
                if data@.subrange(0, 4) == magic() {
                    assert(data@.subrange(0, 4)[0] == data@[0]);
                    assert(data@.subrange(0, 4)[1] == data@[1]);
                    assert(data@.subrange(0, 4)[2] == data@[2]);
                    assert(data@.subrange(0, 4)[3] == data@[3]);
                }
            }
        }
        return Err(WalError::InvalidHeader { reason: bad_magic_reason(data[0], data[1], data[2], data[3]) });
    }
    assert(data@.subrange(0, 4) =~= magic());
    let version = data[4];
    if version != WAL_VERSION {
        return Err(WalError::UnsupportedVersion { found: version, expected: WAL_VERSION });
    }
    Ok(())
}

/// The reason given for a header whose magic is wrong: both magics as
/// lists of byte values.
pub open spec fn bad_magic_text(b0: u8, b1: u8, b2: u8, b3: u8) -> Seq<char> {
    "bad magic: expected [84, 82, 68, 66], found ["@ + decimal(b0 as nat) + ", "@ + decimal(
        b1 as nat,
    ) + ", "@ + decimal(b2 as nat) + ", "@ + decimal(b3 as nat) + "]"@
}

fn bad_magic_reason(b0: u8, b1: u8, b2: u8, b3: u8) -> (r: String)
    ensures
        r@ == bad_magic_text(b0, b1, b2, b3),
{
    let d0 = decimal_text(b0 as u64);
    let d1 = decimal_text(b1 as u64);
    let d2 = decimal_text(b2 as u64);
    let d3 = decimal_text(b3 as u64);
    let t = concat("bad magic: expected [84, 82, 68, 66], found [", d0.as_str());
    let t = concat(t.as_str(), ", ");
    let t = concat(t.as_str(), d1.as_str());
    let t = concat(t.as_str(), ", ");
    let t = concat(t.as_str(), d2.as_str());
    let t = concat(t.as_str(), ", ");
    let t = concat(t.as_str(), d3.as_str());
    concat(t.as_str(), "]")
}

} // verus!
