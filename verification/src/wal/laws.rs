//! Properties that span the writer, the reader and replay.

use vstd::prelude::*;
use crate::wal::checksum::crc32_of;
use crate::wal::codec::{be32, be32_at, lemma_be32_roundtrip};
use crate::wal::entry::{entry_bytes, fields_fit, lemma_parse_entry_bytes, parse_entry, EntryView};
use crate::wal::format::{check_header, header_bytes, magic};
use crate::wal::options::ReplayMode;
use crate::wal::reader::{checksum_text, frame_at, frame_end, over_limit_text, Frame};
use crate::wal::replay::{apply, apply_all, replay_from, replay_log, Outcome};
use crate::wal::test_store::StoreView;
use crate::wal::writer::{entry_fits, frame, frames};

verus! {

/// A payload no longer than `u32::MAX` has fields that fit their prefixes.
proof fn lemma_fits_fields(e: EntryView)
    requires
        entry_bytes(e).len() <= u32::MAX,
    ensures
        fields_fit(e),
{
    reveal(entry_bytes);
}

proof fn lemma_be32_at_offset(pre: Seq<u8>, x: u32, post: Seq<u8>)
    ensures
        be32_at(pre + be32(x) + post, pre.len() as int) == x,
{
    let d = pre + be32(x) + post;
    let o = pre.len() as int;
    assert(d[o] == be32(x)[0]);
    assert(d[o + 1] == be32(x)[1]);
    assert(d[o + 2] == be32(x)[2]);
    assert(d[o + 3] == be32(x)[3]);
    lemma_be32_roundtrip(x);
}

/// The frame that `frame(q)` starts, read back where it was written.
proof fn lemma_frame_at_written(p: Seq<u8>, q: Seq<u8>, rest: Seq<u8>, lim: int)
    requires
        q.len() <= lim,
        q.len() <= u32::MAX,
    ensures
        frame_at(p + frame(q) + rest, p.len() as int, lim) == (Frame::Complete { payload: q }),
        frame(q).len() == 8 + q.len(),
{
    reveal(frame);
    let d = p + frame(q) + rest;
    let c = p.len() as int;
    let l = be32(q.len() as u32);
    let k = be32(crc32_of(q));
    assert(d =~= p + l + (k + q + rest));
    lemma_be32_at_offset(p, q.len() as u32, k + q + rest);
    assert(d =~= (p + l) + k + (q + rest));
    lemma_be32_at_offset(p + l, crc32_of(q), q + rest);
    assert(d.subrange(c + 8, c + 8 + q.len()) =~= q);
}

/// Replaying the frames of `es` that start at `p.len()` applies them in
/// order and moves on to whatever follows them.
proof fn lemma_replay_frames(
    s: StoreView,
    p: Seq<u8>,
    es: Seq<EntryView>,
    t: Seq<u8>,
    n: nat,
    lim: int,
    mode: ReplayMode,
)
    requires
        forall|i: int| 0 <= i < es.len() ==> entry_fits(#[trigger] es[i], lim),
    ensures
        replay_from(s, p + frames(es) + t, p.len() as int, n, lim, mode) == replay_from(
            apply_all(s, es),
            p + frames(es) + t,
            p.len() + frames(es).len() as int,
            n + es.len(),
            lim,
            mode,
        ),
    decreases es.len(),
{
    let d = p + frames(es) + t;
    let c = p.len() as int;
    if es.len() == 0 {
        assert(frames(es) =~= Seq::<u8>::empty());
    } else {
        let e = es[0];
        let q = entry_bytes(e);
        let rest = es.drop_first();
        assert(entry_fits(es[0], lim));
        lemma_frame_at_written(p, q, frames(rest) + t, lim);
        assert(d =~= p + frame(q) + (frames(rest) + t));
        lemma_fits_fields(e);
        lemma_parse_entry_bytes(e);
        assert forall|i: int| 0 <= i < rest.len() implies entry_fits(#[trigger] rest[i], lim) by {
            assert(rest[i] == es[i + 1]);
        }
        let p2 = p + frame(q);
        lemma_replay_frames(apply(s, e), p2, rest, t, n + 1, lim, mode);
        assert(p2 + frames(rest) + t =~= d);
        assert(parse_entry(q) == Some(e));
        assert(replay_from(s, d, c, n, lim, mode) == replay_from(
            apply(s, e),
            d,
            c + 8 + q.len(),
            n + 1,
            lim,
            mode,
        ));
        assert(frames(es).len() == frame(q).len() + frames(rest).len());
    }
}

/// A log written by the writer (a header, then the frames of `es`) and
/// replayed into a store, in either mode, applies every entry in order and
/// reports all of them, ending after the last frame.
pub proof fn law_replay_of_written_log(s: StoreView, es: Seq<EntryView>, mode: ReplayMode)
    requires
        forall|i: int| 0 <= i < es.len() ==> entry_fits(#[trigger] es[i], 256 * 1024 * 1024 as int),
    ensures
        replay_log(s, Some(header_bytes() + frames(es)), mode) == (
            apply_all(s, es),
            Outcome::Replayed {
                applied: es.len(),
                final_position: 8 + frames(es).len() as int,
                truncated_at: None,
                corruption_at: None,
            },
        ),
{
    let d = header_bytes() + frames(es);
    assert(d.subrange(0, 4) =~= magic());
    assert(d[4] == 1u8);
    assert(check_header(d) is Valid);
    lemma_replay_frames(s, header_bytes(), es, Seq::empty(), 0, 256 * 1024 * 1024 as int, mode);
    assert(header_bytes() + frames(es) + Seq::<u8>::empty() =~= d);
    assert(frame_at(d, 8 + frames(es).len() as int, 256 * 1024 * 1024 as int) is End);
}

/// The frame that starts after a log's whole frames is cut short when the
/// log ends anywhere inside it: in its length, its checksum or its payload.
proof fn lemma_frame_at_cut(p: Seq<u8>, q: Seq<u8>, k: int, lim: int)
    requires
        q.len() <= lim,
        q.len() <= u32::MAX,
        0 < k < 8 + q.len(),
    ensures
        frame_at(p + frame(q).take(k), p.len() as int, lim) is Truncated,
{
    reveal(frame);
    let d = p + frame(q).take(k);
    let c = p.len() as int;
    if k >= 4 {
        let l = be32(q.len() as u32);
        let rest = frame(q).subrange(4, k);
        assert(frame(q).take(k) =~= l + rest);
        assert(d =~= p + l + rest);
        lemma_be32_at_offset(p, q.len() as u32, rest);
    }
}

/// A written log that ends anywhere inside a further entry (a torn last
/// write): lenient replay applies every whole entry and reports where the
/// cut one began; strict replay applies the same entries and fails with the
/// truncation.
pub proof fn law_replay_of_truncated_log(
    s: StoreView,
    es: Seq<EntryView>,
    q: Seq<u8>,
    k: int,
    mode: ReplayMode,
)
    requires
        forall|i: int| 0 <= i < es.len() ==> entry_fits(#[trigger] es[i], 256 * 1024 * 1024 as int),
        q.len() <= 256 * 1024 * 1024,
        0 < k < 8 + q.len(),
    ensures
        replay_log(s, Some(header_bytes() + frames(es) + frame(q).take(k)), mode) == if mode
            == ReplayMode::Lenient {
            (
                apply_all(s, es),
                Outcome::Replayed {
                    applied: es.len(),
                    final_position: 8 + frames(es).len() as int,
                    truncated_at: Some(8 + frames(es).len() as int),
                    corruption_at: None,
                },
            )
        } else {
            (apply_all(s, es), Outcome::Truncated)
        },
{
    let tail = frame(q).take(k);
    let d = header_bytes() + frames(es) + tail;
    assert(d.subrange(0, 4) =~= magic());
    assert(d[4] == 1u8);
    assert(check_header(d) is Valid);
    lemma_replay_frames(s, header_bytes(), es, tail, 0, 256 * 1024 * 1024 as int, mode);
    lemma_frame_at_cut(header_bytes() + frames(es), q, k, 256 * 1024 * 1024 as int);
    assert(frame_at(d, 8 + frames(es).len() as int, 256 * 1024 * 1024 as int) is Truncated);
}

/// The outcome of replaying a log whose whole frames `es` are followed by
/// a corrupt one: lenient replay keeps what came before and reports where
/// the corrupt frame began; strict replay fails there, with `reason`.
pub open spec fn stopped_at_corruption(
    s: StoreView,
    es: Seq<EntryView>,
    mode: ReplayMode,
    reason: Seq<char>,
) -> (
    StoreView,
    Outcome,
) {
    let at = 8 + frames(es).len() as int;
    if mode == ReplayMode::Lenient {
        (
            apply_all(s, es),
            Outcome::Replayed {
                applied: es.len(),
                final_position: at,
                truncated_at: None,
                corruption_at: Some(at),
            },
        )
    } else {
        (apply_all(s, es), Outcome::Corrupt { position: at, reason })
    }
}

/// A written log followed by a frame whose stored checksum does not match
/// its payload (a payload or checksum damaged on disk): replay applies the
/// entries before it and stops at the damaged frame.
#[verifier::rlimit(40)]
pub proof fn law_replay_stops_at_checksum_mismatch(
    s: StoreView,
    es: Seq<EntryView>,
    q: Seq<u8>,
    stored: u32,
    rest: Seq<u8>,
    mode: ReplayMode,
)
    requires
        forall|i: int| 0 <= i < es.len() ==> entry_fits(#[trigger] es[i], 256 * 1024 * 1024 as int),
        q.len() <= 256 * 1024 * 1024,
        stored != crc32_of(q),
    ensures
        replay_log(s, Some(header_bytes() + frames(es) + (be32(q.len() as u32) + be32(stored) + q + rest)), mode)
            == stopped_at_corruption(s, es, mode, checksum_text(stored, crc32_of(q))),
{
    let tail = be32(q.len() as u32) + be32(stored) + q + rest;
    let p = header_bytes() + frames(es);
    let d = p + tail;
    let c = p.len() as int;
    assert(d.subrange(0, 4) =~= magic());
    assert(d[4] == 1u8);
    assert(check_header(d) is Valid);
    lemma_replay_frames(s, header_bytes(), es, tail, 0, 256 * 1024 * 1024 as int, mode);
    assert(d =~= p + be32(q.len() as u32) + (be32(stored) + q + rest));
    lemma_be32_at_offset(p, q.len() as u32, be32(stored) + q + rest);
    assert(d =~= (p + be32(q.len() as u32)) + be32(stored) + (q + rest));
    lemma_be32_at_offset(p + be32(q.len() as u32), stored, q + rest);
    assert(d.subrange(c + 8, c + 8 + q.len()) =~= q);
    assert(frame_at(d, c, 256 * 1024 * 1024 as int) is Mismatch);
}

/// A written log followed by a length header beyond the reader's limit (a
/// damaged length): replay applies the entries before it and stops there.
pub proof fn law_replay_stops_at_oversized_length(
    s: StoreView,
    es: Seq<EntryView>,
    len: u32,
    rest: Seq<u8>,
    mode: ReplayMode,
)
    requires
        forall|i: int| 0 <= i < es.len() ==> entry_fits(#[trigger] es[i], 256 * 1024 * 1024 as int),
        len > 256 * 1024 * 1024,
    ensures
        replay_log(s, Some(header_bytes() + frames(es) + (be32(len) + rest)), mode)
            == stopped_at_corruption(s, es, mode, over_limit_text(len as nat, 256 * 1024 * 1024)),
{
    let tail = be32(len) + rest;
    let p = header_bytes() + frames(es);
    let d = p + tail;
    assert(d.subrange(0, 4) =~= magic());
    assert(d[4] == 1u8);
    assert(check_header(d) is Valid);
    lemma_replay_frames(s, header_bytes(), es, tail, 0, 256 * 1024 * 1024 as int, mode);
    assert(d =~= p + be32(len) + rest);
    lemma_be32_at_offset(p, len, rest);
    assert(frame_at(d, p.len() as int, 256 * 1024 * 1024 as int) is TooLarge);
}

proof fn lemma_frames_append(a: Seq<EntryView>, b: Seq<EntryView>)
    ensures
        frames(a + b) == frames(a) + frames(b),
    decreases a.len(),
{
    if a.len() == 0 {
        assert(a + b =~= b);
        assert(frames(a) =~= Seq::<u8>::empty());
        assert(frames(a) + frames(b) =~= frames(b));
    } else {
        assert((a + b).drop_first() =~= a.drop_first() + b);
        lemma_frames_append(a.drop_first(), b);
        assert(frames(a + b) =~= frames(a) + frames(b));
    }
}

/// A reader of a written log meets its entries one by one: the frame that
/// starts where the first `i` entries end holds the payload of entry `i`,
/// which decodes to that entry and ends where the first `i + 1` end; after
/// the last entry the log ends cleanly. (The reader's `next_entry` is
/// stated over `frame_at` and `frame_end`.)
pub proof fn law_reader_meets_each_entry(es: Seq<EntryView>, i: int, lim: int)
    requires
        forall|j: int| 0 <= j < es.len() ==> entry_fits(#[trigger] es[j], lim),
        0 <= i <= es.len(),
    ensures
        ({
            let d = header_bytes() + frames(es);
            let c = 8 + frames(es.take(i)).len() as int;
            &&& i < es.len() ==> frame_at(d, c, lim) == (Frame::Complete { payload: entry_bytes(es[i]) })
                && parse_entry(entry_bytes(es[i])) == Some(es[i]) && frame_end(d, c, lim) == 8 + frames(
                es.take(i + 1),
            ).len()
            &&& i == es.len() ==> frame_at(d, c, lim) is End
        }),
{
    let d = header_bytes() + frames(es);
    if i < es.len() {
        let e = es[i];
        let q = entry_bytes(e);
        let pre = es.take(i);
        let post = es.skip(i + 1);
        assert(es =~= pre + (seq![e] + post));
        lemma_frames_append(pre, seq![e] + post);
        lemma_frames_append(seq![e], post);
        assert(seq![e].drop_first() =~= Seq::<EntryView>::empty());
        assert(seq![e][0] == e);
        assert(frames(Seq::<EntryView>::empty()) =~= Seq::<u8>::empty());
        assert(frames(seq![e]) == frame(q) + frames(Seq::<EntryView>::empty()));
        assert(frames(seq![e]) =~= frame(q));
        let p = header_bytes() + frames(pre);
        assert(d =~= p + frame(q) + frames(post));
        assert(entry_fits(es[i], lim));
        lemma_frame_at_written(p, q, frames(post), lim);
        lemma_fits_fields(e);
        lemma_parse_entry_bytes(e);
        assert(es.take(i + 1) =~= pre + seq![e]);
        lemma_frames_append(pre, seq![e]);
        assert(d.subrange(p.len() + 8 as int, p.len() + 8 + be32_at(d, p.len() as int)) == q);
    } else {
        assert(es.take(i) =~= es);
    }
}

/// The table and key an entry writes, where it writes one.
pub open spec fn entry_target(e: EntryView) -> Option<(Seq<char>, Seq<char>)> {
    match e {
        EntryView::Insert { table, key, .. } => Some((table, key)),
        EntryView::Update { table, key, .. } => Some((table, key)),
        EntryView::Delete { table, key } => Some((table, key)),
        _ => None,
    }
}

/// Applying an entry that writes one key (insert, update or delete) leaves
/// every other table as it was and every other key of its table as it was;
/// insert and update then hold the new value at that key, and delete
/// leaves the key absent.
pub proof fn law_apply_touches_only_its_key(s: StoreView, e: EntryView, t: Seq<char>, k: Seq<char>)
    requires
        entry_target(e) is Some,
        t != entry_target(e)->Some_0.0 || k != entry_target(e)->Some_0.1,
        s.contains_key(t),
    ensures
        ({
            let a = apply(s, e);
            &&& a.contains_key(t)
            &&& a[t].contains_key(k) == s[t].contains_key(k)
            &&& s[t].contains_key(k) ==> a[t][k] == s[t][k]
        }),
        t != entry_target(e)->Some_0.0 ==> apply(s, e).contains_key(t) && apply(s, e)[t] == s[t],
        match e {
            EntryView::Insert { table, key, value } => apply(s, e)[table].contains_key(key) && apply(
                s,
                e,
            )[table][key] == value,
            EntryView::Update { table, key, value } => apply(s, e)[table].contains_key(key) && apply(
                s,
                e,
            )[table][key] == value,
            EntryView::Delete { table, key } => s.contains_key(table) ==> apply(s, e).contains_key(table)
                && !apply(s, e)[table].contains_key(key),
            _ => true,
        },
{
}

/// Creating or removing a table leaves every other table as it was;
/// creating keeps an existing table's contents and otherwise starts it
/// empty, and removing leaves the table absent.
pub proof fn law_apply_table_entries(s: StoreView, table: Seq<char>, t: Seq<char>)
    ensures
        ({
            let c = apply(s, EntryView::CreateTable { table });
            &&& c.contains_key(table)
            &&& c[table] == if s.contains_key(table) {
                s[table]
            } else {
                Map::<Seq<char>, Seq<u8>>::empty()
            }
            &&& t != table ==> c.contains_key(t) == s.contains_key(t) && (s.contains_key(t) ==> c[t]
                == s[t])
        }),
        ({
            let r = apply(s, EntryView::RemoveTable { table });
            &&& !r.contains_key(table)
            &&& t != table ==> r.contains_key(t) == s.contains_key(t) && (s.contains_key(t) ==> r[t]
                == s[t])
        }),
{
}

} // verus!
