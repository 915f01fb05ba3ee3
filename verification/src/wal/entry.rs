//! The records of the write-ahead log and their payload encoding.

use vstd::prelude::*;
use crate::text::{concat, decimal, decimal_text};
use vstd::utf8::*;
use crate::wal::codec::{
    decode_bytes, decode_field, decode_string, encode_bytes, encode_field, encode_string,
    field_error_message, lemma_decode_encode_field, lemma_decoded_field,
};
use crate::wal::error::WalError;

verus! {

broadcast use {vstd::utf8::encode_utf8_decode_utf8, vstd::utf8::encode_utf8_valid_utf8};

/// A single record in the write-ahead log.
#[derive(Debug, Clone, PartialEq, Eq)]
pub enum WalEntry {
    CreateTable { table: String },
    RemoveTable { table: String },
    Insert { table: String, key: String, value: Vec<u8> },
    Update { table: String, key: String, value: Vec<u8> },
    Delete { table: String, key: String },
}

/// The mathematical content of a [`WalEntry`].
pub enum EntryView {
    CreateTable { table: Seq<char> },
    RemoveTable { table: Seq<char> },
    Insert { table: Seq<char>, key: Seq<char>, value: Seq<u8> },
    Update { table: Seq<char>, key: Seq<char>, value: Seq<u8> },
    Delete { table: Seq<char>, key: Seq<char> },
}

impl View for WalEntry {
    type V = EntryView;

    open spec fn view(&self) -> EntryView {
        match self {
            WalEntry::CreateTable { table } => EntryView::CreateTable { table: table@ },
            WalEntry::RemoveTable { table } => EntryView::RemoveTable { table: table@ },
            WalEntry::Insert { table, key, value } => EntryView::Insert {
                table: table@,
                key: key@,
                value: value@,
            },
            WalEntry::Update { table, key, value } => EntryView::Update {
                table: table@,
                key: key@,
                value: value@,
            },
            WalEntry::Delete { table, key } => EntryView::Delete { table: table@, key: key@ },
        }
    }
}

/// A string field on the wire.
pub open spec fn string_field(s: Seq<char>) -> Seq<u8> {
    encode_field(encode_utf8(s))
}

/// The payload that encodes an entry: a tag byte, then its fields.
#[verifier::opaque]
pub open spec fn entry_bytes(e: EntryView) -> Seq<u8> {
    match e {
        EntryView::CreateTable { table } => seq![0u8] + string_field(table),
        EntryView::RemoveTable { table } => seq![1u8] + string_field(table),
        EntryView::Insert { table, key, value } => seq![2u8] + string_field(table) + string_field(
            key,
        ) + encode_field(value),
        EntryView::Update { table, key, value } => seq![3u8] + string_field(table) + string_field(
            key,
        ) + encode_field(value),
        EntryView::Delete { table, key } => seq![4u8] + string_field(table) + string_field(key),
    }
}

/// A string field at `offset`: the string and the bytes it takes, when the
/// field is there and its bytes are valid UTF-8.
pub open spec fn parse_string(p: Seq<u8>, offset: int) -> Option<(Seq<char>, int)> {
    match decode_field(p, offset) {
        Some((b, n)) => if valid_utf8(b) {
            Some((decode_utf8(b), n))
        } else {
            None
        },
        None => None,
    }
}

/// The entry that a payload encodes, if it encodes one: the tag, the table
/// name, then the fields that the tag calls for, and nothing after them.
#[verifier::opaque]
pub open spec fn parse_entry(p: Seq<u8>) -> Option<EntryView> {
    if p.len() == 0 {
        None
    } else {
        match parse_string(p, 1) {
            None => None,
            Some((table, n1)) => {
                let c1 = 1 + n1;
                if p[0] == 0u8 || p[0] == 1u8 {
                    if c1 != p.len() {
                        None
                    } else if p[0] == 0u8 {
                        Some(EntryView::CreateTable { table })
                    } else {
                        Some(EntryView::RemoveTable { table })
                    }
                } else if p[0] == 2u8 || p[0] == 3u8 || p[0] == 4u8 {
                    match parse_string(p, c1) {
                        None => None,
                        Some((key, n2)) => {
                            let c2 = c1 + n2;
                            if p[0] == 4u8 {
                                if c2 != p.len() {
                                    None
                                } else {
                                    Some(EntryView::Delete { table, key })
                                }
                            } else {
                                match decode_field(p, c2) {
                                    None => None,
                                    Some((value, n3)) => if c2 + n3 != p.len() {
                                        None
                                    } else if p[0] == 2u8 {
                                        Some(EntryView::Insert { table, key, value })
                                    } else {
                                        Some(EntryView::Update { table, key, value })
                                    },
                                }
                            }
                        },
                    }
                } else {
                    None
                }
            },
        }
    }
}

/// Every field of the entry fits the `u32` length prefix.
pub open spec fn fields_fit(e: EntryView) -> bool {
    match e {
        EntryView::CreateTable { table } => encode_utf8(table).len() <= u32::MAX,
        EntryView::RemoveTable { table } => encode_utf8(table).len() <= u32::MAX,
        EntryView::Insert { table, key, value } => encode_utf8(table).len() <= u32::MAX
            && encode_utf8(key).len() <= u32::MAX && value.len() <= u32::MAX,
        EntryView::Update { table, key, value } => encode_utf8(table).len() <= u32::MAX
            && encode_utf8(key).len() <= u32::MAX && value.len() <= u32::MAX,
        EntryView::Delete { table, key } => encode_utf8(table).len() <= u32::MAX && encode_utf8(
            key,
        ).len() <= u32::MAX,
    }
}

proof fn lemma_parse_string_at(prefix: Seq<u8>, s: Seq<char>, suffix: Seq<u8>)
    requires
        encode_utf8(s).len() <= u32::MAX,
    ensures
        parse_string(prefix + string_field(s) + suffix, prefix.len() as int) == Some(
            (s, string_field(s).len() as int),
        ),
{
    lemma_decode_encode_field(prefix, encode_utf8(s), suffix);
}

proof fn lemma_parse_one_string(tag: u8, table: Seq<char>)
    requires
        tag == 0 || tag == 1,
        encode_utf8(table).len() <= u32::MAX,
    ensures
        parse_string(seq![tag] + string_field(table), 1) == Some(
            (table, string_field(table).len() as int),
        ),
        (seq![tag] + string_field(table)).len() == 1 + string_field(table).len(),
{
    lemma_parse_string_at(seq![tag], table, Seq::empty());
    assert(seq![tag] + string_field(table) =~= seq![tag] + string_field(table) + Seq::<u8>::empty());
}

proof fn lemma_parse_two_strings(tag: u8, table: Seq<char>, key: Seq<char>)
    requires
        encode_utf8(table).len() <= u32::MAX,
        encode_utf8(key).len() <= u32::MAX,
    ensures
        ({
            let p = seq![tag] + string_field(table) + string_field(key);
            &&& parse_string(p, 1) == Some((table, string_field(table).len() as int))
            &&& parse_string(p, 1 + string_field(table).len() as int) == Some(
                (key, string_field(key).len() as int),
            )
        }),
{
    let t = seq![tag];
    let p = t + string_field(table) + string_field(key);
    lemma_parse_string_at(t, table, string_field(key));
    lemma_parse_string_at(t + string_field(table), key, Seq::empty());
    assert(p =~= (t + string_field(table)) + string_field(key) + Seq::<u8>::empty());
}

proof fn lemma_parse_record(tag: u8, table: Seq<char>, key: Seq<char>, value: Seq<u8>)
    requires
        encode_utf8(table).len() <= u32::MAX,
        encode_utf8(key).len() <= u32::MAX,
        value.len() <= u32::MAX,
    ensures
        ({
            let p = seq![tag] + string_field(table) + string_field(key) + encode_field(value);
            let c2 = 1 + string_field(table).len() + string_field(key).len() as int;
            &&& parse_string(p, 1) == Some((table, string_field(table).len() as int))
            &&& parse_string(p, 1 + string_field(table).len() as int) == Some(
                (key, string_field(key).len() as int),
            )
            &&& decode_field(p, c2) == Some((value, encode_field(value).len() as int))
            &&& p.len() == c2 + encode_field(value).len()
        }),
{
    let t = seq![tag];
    let p = t + string_field(table) + string_field(key) + encode_field(value);
    lemma_parse_string_at(t, table, string_field(key) + encode_field(value));
    assert(p =~= t + string_field(table) + (string_field(key) + encode_field(value)));
    lemma_parse_string_at(t + string_field(table), key, encode_field(value));
    lemma_decode_encode_field(t + string_field(table) + string_field(key), value, Seq::empty());
    assert(p =~= (t + string_field(table) + string_field(key)) + encode_field(value)
        + Seq::<u8>::empty());
}

/// Decoding the payload of an entry gives the entry back.
pub proof fn lemma_parse_entry_bytes(e: EntryView)
    requires
        fields_fit(e),
    ensures
        parse_entry(entry_bytes(e)) == Some(e),
{
    reveal(entry_bytes);
    reveal(parse_entry);
    match e {
        EntryView::CreateTable { table } => {
            lemma_parse_one_string(0u8, table);
        },
        EntryView::RemoveTable { table } => {
            lemma_parse_one_string(1u8, table);
        },
        EntryView::Insert { table, key, value } => {
            lemma_parse_record(2u8, table, key, value);
        },
        EntryView::Update { table, key, value } => {
            lemma_parse_record(3u8, table, key, value);
        },
        EntryView::Delete { table, key } => {
            lemma_parse_two_strings(4u8, table, key);
        },
    }
}

proof fn lemma_string_at(p: Seq<u8>, off: int)
    requires
        0 <= off,
        parse_string(p, off) is Some,
    ensures
        ({
            let (t, n) = parse_string(p, off)->Some_0;
            &&& off + n <= p.len()
            &&& n == string_field(t).len()
            &&& p.subrange(off, off + n) == string_field(t)
            &&& encode_utf8(t).len() <= u32::MAX
        }),
{
    let (b, n) = decode_field(p, off)->Some_0;
    lemma_decoded_field(p, off);
    vstd::utf8::decode_utf8_encode_utf8(b);
}

/// A payload that decodes to an entry is that entry's encoding, byte for
/// byte: decoding loses nothing and accepts no second spelling.
pub proof fn law_decoded_payload_reencodes(p: Seq<u8>)
    requires
        parse_entry(p) is Some,
    ensures
        entry_bytes(parse_entry(p)->Some_0) == p,
        fields_fit(parse_entry(p)->Some_0),
{
    reveal(parse_entry);
    reveal(entry_bytes);
    let (table, n1) = parse_string(p, 1)->Some_0;
    lemma_string_at(p, 1);
    let c1 = 1 + n1;
    let head = p.subrange(0, 1);
    assert(head =~= seq![p[0]]);
    if p[0] == 0u8 || p[0] == 1u8 {
        assert(p =~= head + p.subrange(1, c1));
    } else {
        let (key, n2) = parse_string(p, c1)->Some_0;
        lemma_string_at(p, c1);
        let c2 = c1 + n2;
        if p[0] == 4u8 {
            assert(p =~= head + p.subrange(1, c1) + p.subrange(c1, c2));
        } else {
            let (value, n3) = decode_field(p, c2)->Some_0;
            lemma_decoded_field(p, c2);
            assert(p =~= head + p.subrange(1, c1) + p.subrange(c1, c2) + p.subrange(c2, c2 + n3));
        }
    }
}

/// The message `from_bytes` fails with on a payload that encodes no entry,
/// where it is fixed by the payload: `None` where decoding stops at a field
/// whose bytes are not UTF-8 (that message quotes the UTF-8 error), and where
/// there is no error.
#[verifier::opaque]
pub open spec fn entry_error(p: Seq<u8>) -> Option<Seq<char>> {
    if p.len() == 0 {
        Some("missing tag"@)
    } else {
        match decode_field(p, 1) {
            None => Some(field_error_message(p, 1, true)),
            Some((tb, n1)) => if !valid_utf8(tb) {
                None
            } else {
                let c1 = 1 + n1;
                let tag = p[0];
                if tag == 0u8 || tag == 1u8 {
                    if c1 != p.len() {
                        Some(trailing_bytes_text(c1 as nat, p.len()))
                    } else {
                        None
                    }
                } else if tag == 2u8 || tag == 3u8 || tag == 4u8 {
                    match decode_field(p, c1) {
                        None => Some(field_error_message(p, c1, true)),
                        Some((kb, n2)) => if !valid_utf8(kb) {
                            None
                        } else {
                            let c2 = c1 + n2;
                            if tag == 4u8 {
                                if c2 != p.len() {
                                    Some(trailing_bytes_text(c2 as nat, p.len()))
                                } else {
                                    None
                                }
                            } else {
                                match decode_field(p, c2) {
                                    None => Some(field_error_message(p, c2, false)),
                                    Some((vb, n3)) => if c2 + n3 != p.len() {
                                        Some(trailing_bytes_text((c2 + n3) as nat, p.len()))
                                    } else {
                                        None
                                    },
                                }
                            }
                        },
                    }
                } else {
                    Some(unknown_tag_text(tag))
                }
            },
        }
    }
}

impl WalEntry {
    /// Serializes the entry into its payload representation.
    pub fn to_bytes(&self) -> (r: Vec<u8>)
        ensures
            r@ == entry_bytes(self@),
    {
        reveal(entry_bytes);
        let mut buf = Vec::new();
        match self {
            WalEntry::CreateTable { table } => {
                buf.push(0);
                encode_string(&mut buf, table.as_str());
            },
            WalEntry::RemoveTable { table } => {
                buf.push(1);
                encode_string(&mut buf, table.as_str());
            },
            WalEntry::Insert { table, key, value } => {
                buf.push(2);
                encode_string(&mut buf, table.as_str());
                encode_string(&mut buf, key.as_str());
                encode_bytes(&mut buf, value.as_slice());
            },
            WalEntry::Update { table, key, value } => {
                buf.push(3);
                encode_string(&mut buf, table.as_str());
                encode_string(&mut buf, key.as_str());
                encode_bytes(&mut buf, value.as_slice());
            },
            WalEntry::Delete { table, key } => {
                buf.push(4);
                encode_string(&mut buf, table.as_str());
                encode_string(&mut buf, key.as_str());
            },
        }
        assert(buf@ =~= entry_bytes(self@));
        buf
    }

    /// Deserializes an entry from its payload representation.
    pub fn from_bytes(payload: &[u8]) -> (r: Result<Self, WalError>)
        ensures
            match parse_entry(payload@) {
                Some(e) => r matches Ok(entry) && entry@ == e,
                None => r matches Err(WalError::InvalidPayload(m)) && (entry_error(payload@) is Some
                    ==> m@ == entry_error(payload@)->Some_0),
            },
    {
        reveal(parse_entry);
        reveal(entry_error);
        // Brings in that the length fits a `usize`.
        let _n = payload.len();
        if payload.len() == 0 {
            return Err(WalError::InvalidPayload(String::from_str("missing tag")));
        }
        let tag = payload[0];
        let mut cursor: usize = 1;
        let (table, size) = decode_string(payload, cursor)?;
        cursor = cursor + size;
        let entry = if tag == 0 {
            WalEntry::CreateTable { table }
        } else if tag == 1 {
            WalEntry::RemoveTable { table }
        } else if tag == 2 || tag == 3 {
            let (key, key_size) = decode_string(payload, cursor)?;
            cursor = cursor + key_size;
            let (value, value_size) = decode_bytes(payload, cursor)?;
            cursor = cursor + value_size;
            if tag == 2 {
                WalEntry::Insert { table, key, value }
            } else {
                WalEntry::Update { table, key, value }
            }
        } else if tag == 4 {
            let (key, key_size) = decode_string(payload, cursor)?;
            cursor = cursor + key_size;
            WalEntry::Delete { table, key }
        } else {
            return Err(WalError::InvalidPayload(unknown_tag_message(tag)));
        };
        if cursor != payload.len() {
            return Err(
                WalError::InvalidPayload(trailing_bytes_message(cursor, payload.len())),
            );
        }
        Ok(entry)
    }
}

/// The message for an unknown entry tag.
pub open spec fn unknown_tag_text(tag: u8) -> Seq<char> {
    "unknown tag "@ + decimal(tag as nat)
}

/// The message for bytes left after an entry.
pub open spec fn trailing_bytes_text(decoded: nat, len: nat) -> Seq<char> {
    "trailing bytes after entry: decoded "@ + decimal(decoded) + " bytes, payload is "@ + decimal(
        len,
    ) + " bytes"@
}

fn unknown_tag_message(tag: u8) -> (r: String)
    ensures
        r@ == unknown_tag_text(tag),
{
    let n = decimal_text(tag as u64);
    concat("unknown tag ", n.as_str())
}

fn trailing_bytes_message(decoded: usize, len: usize) -> (r: String)
    ensures
        r@ == trailing_bytes_text(decoded as nat, len as nat),
{
    let d = decimal_text(decoded as u64);
    let n = decimal_text(len as u64);
    let t = concat("trailing bytes after entry: decoded ", d.as_str());
    let t = concat(t.as_str(), " bytes, payload is ");
    let t = concat(t.as_str(), n.as_str());
    concat(t.as_str(), " bytes")
}

} // verus!
