//! Length-prefixed encoding of strings and byte strings.

use vstd::prelude::*;
use vstd::utf8::*;
use crate::text::concat;
use crate::wal::error::WalError;

verus! {

/// The big-endian encoding of a `u32`.
pub open spec fn be32(x: u32) -> Seq<u8> {
    seq![
        (x / 0x100_0000) as u8,
        ((x / 0x1_0000) % 0x100) as u8,
        ((x / 0x100) % 0x100) as u8,
        (x % 0x100) as u8,
    ]
}

/// The `u32` whose big-endian encoding starts at `off` in `b`.
pub open spec fn be32_at(b: Seq<u8>, off: int) -> u32 {
    (b[off] as int * 0x100_0000 + b[off + 1] as int * 0x1_0000 + b[off + 2] as int * 0x100
        + b[off + 3] as int) as u32
}

/// A field on the wire: its length as a big-endian `u32`, then its bytes.
/// Lengths beyond `u32::MAX` are truncated, as the `as u32` cast does.
pub open spec fn encode_field(bytes: Seq<u8>) -> Seq<u8> {
    be32(bytes.len() as u32) + bytes
}

/// What `decode_field` reads at `offset`: the field's bytes and the number
/// of bytes consumed, or `None` when the length header or the bytes run past
/// the end of `p`.
pub open spec fn decode_field(p: Seq<u8>, offset: int) -> Option<(Seq<u8>, int)> {
    if offset + 4 > p.len() {
        None
    } else {
        let len = be32_at(p, offset) as int;
        if offset + 4 + len > p.len() {
            None
        } else {
            Some((p.subrange(offset + 4, offset + 4 + len), 4 + len))
        }
    }
}

pub proof fn lemma_be32_roundtrip(x: u32)
    ensures
        be32_at(be32(x), 0) == x,
{
}

/// Reading a field back from where it was written gives its bytes.
pub proof fn lemma_decode_encode_field(prefix: Seq<u8>, bytes: Seq<u8>, suffix: Seq<u8>)
    requires
        bytes.len() <= u32::MAX,
    ensures
        decode_field(prefix + encode_field(bytes) + suffix, prefix.len() as int) == Some(
            (bytes, 4 + bytes.len() as int),
        ),
{
    let p = prefix + encode_field(bytes) + suffix;
    let off = prefix.len() as int;
    assert(p.subrange(off, off + 4) =~= be32(bytes.len() as u32));
    assert(p[off] == be32(bytes.len() as u32)[0]);
    assert(p[off + 1] == be32(bytes.len() as u32)[1]);
    assert(p[off + 2] == be32(bytes.len() as u32)[2]);
    assert(p[off + 3] == be32(bytes.len() as u32)[3]);
    assert(be32_at(p, off) == bytes.len());
    assert(p.subrange(off + 4, off + 4 + bytes.len()) =~= bytes);
}

/// The four bytes at `off` are the big-endian encoding of the number they
/// spell.
proof fn lemma_be32_of_bytes(p: Seq<u8>, off: int)
    requires
        0 <= off,
        off + 4 <= p.len(),
    ensures
        be32(be32_at(p, off)) == p.subrange(off, off + 4),
{
    let b0 = p[off] as int;
    let b1 = p[off + 1] as int;
    let b2 = p[off + 2] as int;
    let b3 = p[off + 3] as int;
    let x = be32_at(p, off) as int;
    assert(x == b0 * 0x100_0000 + b1 * 0x1_0000 + b2 * 0x100 + b3);
    assert(x / 0x100_0000 == b0) by (nonlinear_arith)
        requires
            x == b0 * 0x100_0000 + b1 * 0x1_0000 + b2 * 0x100 + b3,
            0 <= b0 < 256,
            0 <= b1 < 256,
            0 <= b2 < 256,
            0 <= b3 < 256,
    ;
    assert((x / 0x1_0000) % 0x100 == b1) by (nonlinear_arith)
        requires
            x == b0 * 0x100_0000 + b1 * 0x1_0000 + b2 * 0x100 + b3,
            0 <= b0 < 256,
            0 <= b1 < 256,
            0 <= b2 < 256,
            0 <= b3 < 256,
    ;
    assert((x / 0x100) % 0x100 == b2) by (nonlinear_arith)
        requires
            x == b0 * 0x100_0000 + b1 * 0x1_0000 + b2 * 0x100 + b3,
            0 <= b0 < 256,
            0 <= b1 < 256,
            0 <= b2 < 256,
            0 <= b3 < 256,
    ;
    assert(x % 0x100 == b3) by (nonlinear_arith)
        requires
            x == b0 * 0x100_0000 + b1 * 0x1_0000 + b2 * 0x100 + b3,
            0 <= b0 < 256,
            0 <= b1 < 256,
            0 <= b2 < 256,
            0 <= b3 < 256,
    ;
    assert(be32(be32_at(p, off)) =~= p.subrange(off, off + 4));
}

/// A field read back at `off` is, byte for byte, the encoding of what was
/// read: decoding and encoding undo each other.
pub proof fn lemma_decoded_field(p: Seq<u8>, off: int)
    requires
        0 <= off,
        decode_field(p, off) is Some,
    ensures
        ({
            let (b, n) = decode_field(p, off)->Some_0;
            &&& n == 4 + b.len()
            &&& b.len() <= u32::MAX
            &&& off + n <= p.len()
            &&& p.subrange(off, off + n) == encode_field(b)
        }),
{
    let (b, n) = decode_field(p, off)->Some_0;
    lemma_be32_of_bytes(p, off);
    assert(b.len() == be32_at(p, off));
    assert(p.subrange(off, off + n) =~= p.subrange(off, off + 4) + b);
}

fn push_be32(buf: &mut Vec<u8>, x: u32)
    ensures
        final(buf)@ == old(buf)@ + be32(x),
{
    buf.push((x / 0x100_0000) as u8);
    buf.push(((x / 0x1_0000) % 0x100) as u8);
    buf.push(((x / 0x100) % 0x100) as u8);
    buf.push((x % 0x100) as u8);
    assert(final(buf)@ =~= old(buf)@ + be32(x));
}

fn push_all(buf: &mut Vec<u8>, bytes: &[u8])
    ensures
        final(buf)@ == old(buf)@ + bytes@,
{
    let ghost start = buf@;
    let mut i: usize = 0;
    while i < bytes.len()
        invariant
            i <= bytes@.len(),
            buf@ == start + bytes@.subrange(0, i as int),
        decreases bytes@.len() - i,
    {
        buf.push(bytes[i]);
        i = i + 1;
        assert(buf@ =~= start + bytes@.subrange(0, i as int));
    }
    assert(bytes@.subrange(0, i as int) =~= bytes@);
}

/// Encodes a UTF-8 string as a length-prefixed byte sequence.
pub fn encode_string(buf: &mut Vec<u8>, value: &str)
    ensures
        final(buf)@ == old(buf)@ + encode_field(encode_utf8(value@)),
{
    let bytes = value.as_bytes();
    push_be32(buf, bytes.len() as u32);
    push_all(buf, bytes);
    assert(final(buf)@ =~= old(buf)@ + encode_field(encode_utf8(value@)));
}

/// Encodes an arbitrary byte slice as a length-prefixed byte sequence.
pub fn encode_bytes(buf: &mut Vec<u8>, value: &[u8])
    ensures
        final(buf)@ == old(buf)@ + encode_field(value@),
{
    push_be32(buf, value.len() as u32);
    push_all(buf, value);
    assert(final(buf)@ =~= old(buf)@ + encode_field(value@));
}

/// Reads a big-endian `u32` from `payload` at `offset`.
pub fn read_u32(payload: &[u8], offset: usize) -> (r: Result<u32, WalError>)
    ensures
        offset + 4 <= payload@.len() ==> r == Ok::<u32, WalError>(be32_at(payload@, offset as int)),
        offset + 4 > usize::MAX ==> (r matches Err(WalError::InvalidPayload(m)) && m@
            == "u32 offset overflow"@),
        offset + 4 <= usize::MAX && offset + 4 > payload@.len() ==> (r matches Err(
            WalError::InvalidPayload(m),
        ) && m@ == "length header missing"@),
{
    // Brings in that the length fits a `usize`.
    let _n = payload.len();
    let end = match offset.checked_add(4) {
        Some(end) => end,
        None => return Err(WalError::InvalidPayload(String::from_str("u32 offset overflow"))),
    };
    if end > payload.len() {
        return Err(WalError::InvalidPayload(String::from_str("length header missing")));
    }
    let b0 = payload[offset] as u32;
    let b1 = payload[offset + 1] as u32;
    let b2 = payload[offset + 2] as u32;
    let b3 = payload[offset + 3] as u32;
    Ok(b0 * 0x100_0000 + b1 * 0x1_0000 + b2 * 0x100 + b3)
}

/// The message of the `InvalidPayload` error that decoding a field at
/// `offset` stops with, when the field's bytes cannot be located; `what` is
/// the field's kind as it appears in the message ("string" or "bytes").
pub open spec fn field_error_message(p: Seq<u8>, offset: int, is_string: bool) -> Seq<char> {
    if offset + 4 > usize::MAX {
        "u32 offset overflow"@
    } else if offset + 4 > p.len() {
        "length header missing"@
    } else if offset + 4 + be32_at(p, offset) > usize::MAX {
        if is_string {
            "string length overflow"@
        } else {
            "bytes length overflow"@
        }
    } else if is_string {
        "string bytes missing"@
    } else {
        "bytes missing"@
    }
}

/// Copies `payload[start..end]` out after checking, as the decoders do,
/// that `start + len` neither overflows nor runs past the end.
fn locate_field(payload: &[u8], offset: usize, is_string: bool) -> (r: Result<Vec<u8>, WalError>)
    ensures
        match decode_field(payload@, offset as int) {
            Some((b, n)) => r matches Ok(v) && v@ == b,
            None => r matches Err(WalError::InvalidPayload(m)) && m@ == field_error_message(
                payload@,
                offset as int,
                is_string,
            ),
        },
{
    // Brings in that the length fits a `usize`.
    let _n = payload.len();
    let len = read_u32(payload, offset)? as usize;
    // `offset + 4` fits: `read_u32` found four bytes there.
    let start = offset + 4;
    let end = match start.checked_add(len) {
        Some(end) => end,
        None => {
            let m = if is_string {
                String::from_str("string length overflow")
            } else {
                String::from_str("bytes length overflow")
            };
            return Err(WalError::InvalidPayload(m));
        },
    };
    if end > payload.len() {
        let m = if is_string {
            String::from_str("string bytes missing")
        } else {
            String::from_str("bytes missing")
        };
        return Err(WalError::InvalidPayload(m));
    }
    let bytes = vstd::slice::slice_to_vec(vstd::slice::slice_subrange(payload, start, end));
    Ok(bytes)
}

/// `String::from_utf8`, its error rendered as text. std documents that it
/// fails exactly when the bytes are not valid UTF-8 and otherwise returns
/// the string those bytes encode; the text of the error, which tells where
/// the invalid sequence starts, is not stated.
#[verifier::external_body]
fn string_from_utf8(bytes: Vec<u8>) -> (r: Result<String, String>)
    ensures
        r is Ok <==> valid_utf8(bytes@),
        r matches Ok(s) ==> encode_utf8(s@) == bytes@,
{
    String::from_utf8(bytes).map_err(|err| err.to_string())
}

/// Decodes a length-prefixed UTF-8 string starting at `offset`.
///
/// Returns the decoded string and the number of bytes consumed.
pub fn decode_string(payload: &[u8], offset: usize) -> (r: Result<(String, usize), WalError>)
    ensures
        match decode_field(payload@, offset as int) {
            Some((b, n)) => if valid_utf8(b) {
                r matches Ok((s, m)) && s@ == decode_utf8(b) && m == n
            } else {
                r matches Err(WalError::InvalidPayload(m)) && m@.len() >= 14 && m@.subrange(0, 14)
                    == "invalid utf8: "@
            },
            None => r matches Err(WalError::InvalidPayload(m)) && m@ == field_error_message(
                payload@,
                offset as int,
                true,
            ),
        },
{
    // Brings in that the length fits a `usize`.
    let _n = payload.len();
    let bytes = locate_field(payload, offset, true)?;
    let consumed = 4 + bytes.len();
    match string_from_utf8(bytes) {
        Ok(s) => {
            proof {
                broadcast use vstd::utf8::encode_utf8_decode_utf8;
            }
            Ok((s, consumed))
        },
        Err(m) => {
            let t = concat("invalid utf8: ", m.as_str());
            proof {
                reveal_strlit("invalid utf8: ");
            }
            assert(t@.subrange(0, 14) =~= "invalid utf8: "@);
            Err(WalError::InvalidPayload(t))
        },
    }
}

/// Decodes a length-prefixed byte slice starting at `offset`.
///
/// Returns the decoded bytes and the number of bytes consumed.
pub fn decode_bytes(payload: &[u8], offset: usize) -> (r: Result<(Vec<u8>, usize), WalError>)
    ensures
        match decode_field(payload@, offset as int) {
            Some((b, n)) => r matches Ok((v, m)) && v@ == b && m == n,
            None => r matches Err(WalError::InvalidPayload(m)) && m@ == field_error_message(
                payload@,
                offset as int,
                false,
            ),
        },
{
    // Brings in that the length fits a `usize`.
    let _n = payload.len();
    let bytes = locate_field(payload, offset, false)?;
    let consumed = 4 + bytes.len();
    Ok((bytes, consumed))
}

} // verus!
