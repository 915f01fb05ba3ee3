//! Turning storage events into log records.
//!
//! An event payload reads `op:table:key[:...]`; the record keeps the
//! payload and, when the payload has at least three `:`-separated parts,
//! the operation code and the `table:key` it concerns.

use vstd::prelude::*;
use crate::ewal::WalEntry;

verus! {

/// The first position at or after `from` where `p` holds `b`.
pub open spec fn find_from(p: Seq<u8>, b: u8, from: int) -> Option<int>
    decreases p.len() - from,
{
    if from < 0 || from >= p.len() {
        None
    } else if p[from] == b {
        Some(from)
    } else {
        find_from(p, b, from + 1)
    }
}

pub open spec fn colon() -> u8 {
    0x3a
}

/// `b"insert"`, `b"delete"`, `b"update"`.
pub open spec fn insert_word() -> Seq<u8> {
    seq![0x69u8, 0x6e, 0x73, 0x65, 0x72, 0x74]
}

pub open spec fn delete_word() -> Seq<u8> {
    seq![0x64u8, 0x65, 0x6c, 0x65, 0x74, 0x65]
}

pub open spec fn update_word() -> Seq<u8> {
    seq![0x75u8, 0x70, 0x64, 0x61, 0x74, 0x65]
}

/// The operation code of an operation name.
pub open spec fn op_code(op: Seq<u8>) -> Option<u8> {
    if op == insert_word() {
        Some(1u8)
    } else if op == delete_word() {
        Some(2u8)
    } else if op == update_word() {
        Some(3u8)
    } else {
        None
    }
}

/// The operation and `table:key` of a payload with at least three parts.
pub open spec fn parse_event(p: Seq<u8>) -> (Option<u8>, Option<Seq<u8>>) {
    match find_from(p, colon(), 0) {
        None => (None, None),
        Some(i1) => match find_from(p, colon(), i1 + 1) {
            None => (None, None),
            Some(i2) => {
                let i3 = match find_from(p, colon(), i2 + 1) {
                    Some(i) => i,
                    None => p.len() as int,
                };
                let op = p.subrange(0, i1);
                let table = p.subrange(i1 + 1, i2);
                let key = p.subrange(i2 + 1, i3);
                (op_code(op), Some(table + seq![colon()] + key))
            },
        },
    }
}

fn find_colon(p: &[u8], from: usize) -> (r: Option<usize>)
    ensures
        match r {
            Some(i) => find_from(p@, colon(), from as int) == Some(i as int) && from <= i < p@.len(),
            None => find_from(p@, colon(), from as int) is None,
        },
    decreases p@.len() - from,
{
    if from >= p.len() {
        return None;
    }
    if p[from] == 0x3a {
        return Some(from);
    }
    find_colon(p, from + 1)
}

fn same_bytes(a: &[u8], b: &[u8]) -> (r: bool)
    ensures
        r == (a@ == b@),
{
    if a.len() != b.len() {
        return false;
    }
    let mut i: usize = 0;
    while i < a.len()
        invariant
            a@.len() == b@.len(),
            i <= a@.len(),
            forall|j: int| 0 <= j < i ==> a@[j] == b@[j],
        decreases a@.len() - i,
    {
        if a[i] != b[i] {
            return false;
        }
        i = i + 1;
    }
    assert(a@ =~= b@);
    true
}

fn operation_code(op: &[u8]) -> (r: Option<u8>)
    ensures
        r == op_code(op@),
{
    let insert: [u8; 6] = [0x69, 0x6e, 0x73, 0x65, 0x72, 0x74];
    let delete: [u8; 6] = [0x64, 0x65, 0x6c, 0x65, 0x74, 0x65];
    let update: [u8; 6] = [0x75, 0x70, 0x64, 0x61, 0x74, 0x65];
    assert(insert@ =~= insert_word());
    assert(delete@ =~= delete_word());
    assert(update@ =~= update_word());
    if same_bytes(op, insert.as_slice()) {
        Some(1)
    } else if same_bytes(op, delete.as_slice()) {
        Some(2)
    } else if same_bytes(op, update.as_slice()) {
        Some(3)
    } else {
        None
    }
}

pub struct Dispatcher;

impl Dispatcher {
    pub fn new() -> Self {
        Dispatcher
    }

    /// The log record of an event payload: the payload itself, and the
    /// operation code and `table:key` its first three parts give.
    pub fn wal_entry(&self, payload: Vec<u8>) -> (r: WalEntry)
        ensures
            r.payload@ == payload@,
            r.operation == parse_event(payload@).0,
            match parse_event(payload@).1 {
                Some(k) => r.key matches Some(v) && v@ == k,
                None => r.key is None,
            },
            r.checksum is None,
    {
        let p = payload.as_slice();
        // Brings in that the length fits a `usize`.
        let _n = p.len();
        assert(p@ == payload@);
        let (operation, key) = match find_colon(p, 0) {
            None => (None, None),
            Some(i1) => match find_colon(p, i1 + 1) {
                None => (None, None),
                Some(i2) => {
                    let i3 = match find_colon(p, i2 + 1) {
                        Some(i) => i,
                        None => p.len(),
                    };
                    let op = vstd::slice::slice_subrange(p, 0, i1);
                    let table = vstd::slice::slice_subrange(p, i1 + 1, i2);
                    let key = vstd::slice::slice_subrange(p, i2 + 1, i3);
                    let mut ck: Vec<u8> = Vec::new();
                    push_all(&mut ck, table);
                    ck.push(0x3a);
                    push_all(&mut ck, key);
                    assert(ck@ =~= table@ + seq![colon()] + key@);
                    let code = operation_code(op);
                    assert(parse_event(payload@) == (code, Some(ck@)));
                    (code, Some(ck))
                },
            },
        };
        WalEntry { payload, key, operation, checksum: None }
    }
}

fn push_all(buf: &mut Vec<u8>, bytes: &[u8])
    ensures
        final(buf)@ == old(buf)@ + bytes@,
{
    let ghost start = buf@;
    let mut i: usize = 0;
    while i < bytes.len()
        invariant
            i <= bytes@.len(),
            buf@ == start + bytes@.subrange(0, i as int),
        decreases bytes@.len() - i,
    {
        buf.push(bytes[i]);
        i = i + 1;
        assert(buf@ =~= start + bytes@.subrange(0, i as int));
    }
    assert(bytes@.subrange(0, i as int) =~= bytes@);
}

} // verus!
