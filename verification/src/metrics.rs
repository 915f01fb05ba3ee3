//! In-process metrics for the storage engine.
//!
//! Counters for reads, writes, deletes, hits, misses, approximate memory
//! usage, and average operation latency. Like the atomic counters they
//! stand for, they wrap around on overflow.

use vstd::prelude::*;
use vstd::utf8::encode_utf8;
use vstd::wrapping::i64_specs;
use vstd::wrapping::u64_specs;

verus! {

/// A type that can report its approximate in-memory byte size.
pub trait ByteSized {
    /// The approximate number of bytes the value occupies.
    spec fn size_of(&self) -> nat;

    /// Returns the approximate number of bytes this value occupies.
    fn byte_size(&self) -> (r: usize)
        ensures
            r == self.size_of(),
    ;
}

impl ByteSized for Vec<u8> {
    /// The number of bytes held.
    open spec fn size_of(&self) -> nat {
        self@.len()
    }

    fn byte_size(&self) -> (r: usize) {
        self.len()
    }
}

impl ByteSized for String {
    /// The length of the UTF-8 encoding.
    open spec fn size_of(&self) -> nat {
        encode_utf8(self@).len()
    }

    fn byte_size(&self) -> (r: usize) {
        self.as_str().as_bytes().len()
    }
}

impl<T: ByteSized> ByteSized for std::sync::Arc<T> {
    /// The size of the shared value.
    open spec fn size_of(&self) -> nat {
        (**self).size_of()
    }

    fn byte_size(&self) -> (r: usize) {
        (**self).byte_size()
    }
}

impl ByteSized for () {
    /// Nothing.
    open spec fn size_of(&self) -> nat {
        0
    }

    fn byte_size(&self) -> (r: usize) {
        0
    }
}

/// The values of the counters.
#[derive(Debug, Clone, Copy)]
pub struct MetricsState {
    pub reads: u64,
    pub writes: u64,
    pub deletes: u64,
    pub hits: u64,
    pub misses: u64,
    pub total_latency_ns: u64,
    pub operation_count: u64,
    pub memory_usage_bytes: i64,
}

pub open spec fn inc(x: u64) -> u64 {
    u64_specs::wrapping_add(x, 1)
}

/// The counters after a latency sample.
pub open spec fn after_latency(m: MetricsState, latency_ns: u64) -> MetricsState {
    MetricsState {
        total_latency_ns: u64_specs::wrapping_add(m.total_latency_ns, latency_ns),
        operation_count: inc(m.operation_count),
        ..m
    }
}

/// The counters after a change of the memory estimate.
pub open spec fn after_memory(m: MetricsState, delta: i64) -> MetricsState {
    MetricsState { memory_usage_bytes: i64_specs::wrapping_add(m.memory_usage_bytes, delta), ..m }
}

/// The counters after a read.
pub open spec fn after_read(m: MetricsState, hit: bool, latency_ns: u64) -> MetricsState {
    after_latency(
        MetricsState {
            reads: inc(m.reads),
            hits: if hit {
                inc(m.hits)
            } else {
                m.hits
            },
            misses: if hit {
                m.misses
            } else {
                inc(m.misses)
            },
            ..m
        },
        latency_ns,
    )
}

/// The counters after a write.
pub open spec fn after_write(m: MetricsState, delta: i64, latency_ns: u64) -> MetricsState {
    after_latency(after_memory(MetricsState { writes: inc(m.writes), ..m }, delta), latency_ns)
}

/// The counters after a delete.
pub open spec fn after_delete(m: MetricsState, delta: i64, latency_ns: u64) -> MetricsState {
    after_latency(after_memory(MetricsState { deletes: inc(m.deletes), ..m }, delta), latency_ns)
}

/// Every read is either a hit or a miss: hits and misses together count
/// the reads (modulo 2^64, as the counters wrap), and every operation keeps
/// it so.
pub proof fn law_hits_and_misses_count_reads(m: MetricsState, hit: bool, delta: i64, latency_ns: u64)
    requires
        u64_specs::wrapping_add(m.hits, m.misses) == m.reads,
    ensures
        ({
            let r = after_read(m, hit, latency_ns);
            u64_specs::wrapping_add(r.hits, r.misses) == r.reads
        }),
        ({
            let w = after_write(m, delta, latency_ns);
            u64_specs::wrapping_add(w.hits, w.misses) == w.reads
        }),
        ({
            let d = after_delete(m, delta, latency_ns);
            u64_specs::wrapping_add(d.hits, d.misses) == d.reads
        }),
        ({
            let l = after_latency(m, latency_ns);
            u64_specs::wrapping_add(l.hits, l.misses) == l.reads
        }),
        ({
            let u = after_memory(m, delta);
            u64_specs::wrapping_add(u.hits, u.misses) == u.reads
        }),
{
}

/// One recording on the counters.
pub enum MetricsOp {
    Read { hit: bool, latency_ns: u64 },
    Write { memory_delta: i64, latency_ns: u64 },
    Delete { memory_delta: i64, latency_ns: u64 },
    Latency { latency_ns: u64 },
    Memory { delta: i64 },
}

/// The counters after one recording, as the `record_*` and
/// `update_memory_usage` methods leave them.
pub open spec fn after_op(m: MetricsState, op: MetricsOp) -> MetricsState {
    match op {
        MetricsOp::Read { hit, latency_ns } => after_read(m, hit, latency_ns),
        MetricsOp::Write { memory_delta, latency_ns } => after_write(m, memory_delta, latency_ns),
        MetricsOp::Delete { memory_delta, latency_ns } => after_delete(m, memory_delta, latency_ns),
        MetricsOp::Latency { latency_ns } => after_latency(m, latency_ns),
        MetricsOp::Memory { delta } => after_memory(m, delta),
    }
}

/// The counters after a sequence of recordings, in order.
pub open spec fn after_ops(m: MetricsState, ops: Seq<MetricsOp>) -> MetricsState
    decreases ops.len(),
{
    if ops.len() == 0 {
        m
    } else {
        after_ops(after_op(m, ops[0]), ops.drop_first())
    }
}

/// How many of the recordings satisfy `f`.
pub open spec fn count_ops(ops: Seq<MetricsOp>, f: spec_fn(MetricsOp) -> bool) -> nat
    decreases ops.len(),
{
    if ops.len() == 0 {
        0
    } else {
        (if f(ops[0]) {
            1nat
        } else {
            0nat
        }) + count_ops(ops.drop_first(), f)
    }
}

/// The latency a recording carries, 0 for a memory update.
pub open spec fn latency_of(op: MetricsOp) -> nat {
    match op {
        MetricsOp::Read { latency_ns, .. } => latency_ns as nat,
        MetricsOp::Write { latency_ns, .. } => latency_ns as nat,
        MetricsOp::Delete { latency_ns, .. } => latency_ns as nat,
        MetricsOp::Latency { latency_ns } => latency_ns as nat,
        MetricsOp::Memory { .. } => 0,
    }
}

/// The sum of the latencies of the recordings.
pub open spec fn latency_sum(ops: Seq<MetricsOp>) -> nat
    decreases ops.len(),
{
    if ops.len() == 0 {
        0
    } else {
        latency_of(ops[0]) + latency_sum(ops.drop_first())
    }
}

pub open spec fn is_read(op: MetricsOp) -> bool {
    op is Read
}

pub open spec fn is_hit(op: MetricsOp) -> bool {
    op matches MetricsOp::Read { hit, .. } && hit
}

pub open spec fn is_miss(op: MetricsOp) -> bool {
    op matches MetricsOp::Read { hit, .. } && !hit
}

pub open spec fn is_write(op: MetricsOp) -> bool {
    op is Write
}

pub open spec fn is_delete(op: MetricsOp) -> bool {
    op is Delete
}

/// A recording that carries a latency sample.
pub open spec fn is_timed(op: MetricsOp) -> bool {
    !(op is Memory)
}

/// Over any sequence of recordings whose counts and latencies do not
/// overflow, the counters add up: each counts its own kind of recording,
/// the latency total is the sum of the samples, and the snapshot's average
/// is that sum over the number of samples (0 before any).
pub proof fn law_counters_over_recordings(m: MetricsState, ops: Seq<MetricsOp>)
    requires
        m.reads + ops.len() <= u64::MAX,
        m.writes + ops.len() <= u64::MAX,
        m.deletes + ops.len() <= u64::MAX,
        m.hits + ops.len() <= u64::MAX,
        m.misses + ops.len() <= u64::MAX,
        m.operation_count + ops.len() <= u64::MAX,
        m.total_latency_ns + latency_sum(ops) <= u64::MAX,
    ensures
        ({
            let r = after_ops(m, ops);
            &&& r.reads == m.reads + count_ops(ops, |o: MetricsOp| is_read(o))
            &&& r.hits == m.hits + count_ops(ops, |o: MetricsOp| is_hit(o))
            &&& r.misses == m.misses + count_ops(ops, |o: MetricsOp| is_miss(o))
            &&& r.writes == m.writes + count_ops(ops, |o: MetricsOp| is_write(o))
            &&& r.deletes == m.deletes + count_ops(ops, |o: MetricsOp| is_delete(o))
            &&& r.operation_count == m.operation_count + count_ops(ops, |o: MetricsOp| is_timed(o))
            &&& r.total_latency_ns == m.total_latency_ns + latency_sum(ops)
        }),
    decreases ops.len(),
{
    if ops.len() > 0 {
        let n = after_op(m, ops[0]);
        let rest = ops.drop_first();
        law_counters_over_recordings(n, rest);
    }
}

/// From fresh counters, the snapshot after any sequence of recordings that
/// does not overflow counts each kind of recording, has as many hits and
/// misses together as reads, and averages the latency samples.
pub proof fn law_snapshot_after_recordings(ops: Seq<MetricsOp>)
    requires
        ops.len() <= u64::MAX,
        latency_sum(ops) <= u64::MAX,
    ensures
        ({
            let z = MetricsState {
                reads: 0,
                writes: 0,
                deletes: 0,
                hits: 0,
                misses: 0,
                total_latency_ns: 0,
                operation_count: 0,
                memory_usage_bytes: 0,
            };
            let s = snapshot_of(after_ops(z, ops));
            let n = count_ops(ops, |o: MetricsOp| is_timed(o));
            &&& s.reads == count_ops(ops, |o: MetricsOp| is_read(o))
            &&& s.writes == count_ops(ops, |o: MetricsOp| is_write(o))
            &&& s.deletes == count_ops(ops, |o: MetricsOp| is_delete(o))
            &&& s.hits + s.misses == s.reads
            &&& s.average_latency_ns == if n == 0 {
                0
            } else {
                latency_sum(ops) / n
            }
        }),
{
    let z = MetricsState {
        reads: 0,
        writes: 0,
        deletes: 0,
        hits: 0,
        misses: 0,
        total_latency_ns: 0,
        operation_count: 0,
        memory_usage_bytes: 0,
    };
    law_counters_over_recordings(z, ops);
    lemma_hits_and_misses(ops);
}

proof fn lemma_hits_and_misses(ops: Seq<MetricsOp>)
    ensures
        count_ops(ops, |o: MetricsOp| is_hit(o)) + count_ops(ops, |o: MetricsOp| is_miss(o))
            == count_ops(ops, |o: MetricsOp| is_read(o)),
    decreases ops.len(),
{
    if ops.len() > 0 {
        lemma_hits_and_misses(ops.drop_first());
    }
}

/// Memory updates add up: two in a row are one of their (wrapping) sum,
/// and of their plain sum where it fits an `i64`.
pub proof fn law_memory_updates_add(m: MetricsState, a: i64, b: i64)
    ensures
        after_memory(after_memory(m, a), b) == after_memory(m, i64_specs::wrapping_add(a, b)),
        i64::MIN <= a + b <= i64::MAX ==> after_memory(after_memory(m, a), b) == after_memory(
            m,
            (a + b) as i64,
        ),
{
}

/// Counters maintained by the storage engine.
#[derive(Debug)]
pub struct Metrics {
    reads: u64,
    writes: u64,
    deletes: u64,
    hits: u64,
    misses: u64,
    total_latency_ns: u64,
    operation_count: u64,
    memory_usage_bytes: i64,
}

/// A point-in-time copy of all storage counters.
#[derive(Debug, Clone, Copy)]
pub struct MetricsSnapshot {
    pub reads: u64,
    pub writes: u64,
    pub deletes: u64,
    pub hits: u64,
    pub misses: u64,
    pub average_latency_ns: u64,
    pub memory_usage_bytes: u64,
}

impl View for Metrics {
    type V = MetricsState;

    closed spec fn view(&self) -> MetricsState {
        MetricsState {
            reads: self.reads,
            writes: self.writes,
            deletes: self.deletes,
            hits: self.hits,
            misses: self.misses,
            total_latency_ns: self.total_latency_ns,
            operation_count: self.operation_count,
            memory_usage_bytes: self.memory_usage_bytes,
        }
    }
}

/// The snapshot of a set of counter values.
pub open spec fn snapshot_of(m: MetricsState) -> MetricsSnapshot {
    MetricsSnapshot {
        reads: m.reads,
        writes: m.writes,
        deletes: m.deletes,
        hits: m.hits,
        misses: m.misses,
        average_latency_ns: if m.operation_count == 0 {
            0
        } else {
            (m.total_latency_ns / m.operation_count) as u64
        },
        memory_usage_bytes: if m.memory_usage_bytes < 0 {
            0
        } else {
            m.memory_usage_bytes as u64
        },
    }
}

impl Metrics {
    /// The snapshot that `snapshot` returns.
    pub open spec fn snapshot_view(&self) -> MetricsSnapshot {
        snapshot_of(self@)
    }

    /// Creates a new, zero-initialized metrics instance.
    pub fn new() -> (r: Self)
        ensures
            r@ == (MetricsState {
                reads: 0,
                writes: 0,
                deletes: 0,
                hits: 0,
                misses: 0,
                total_latency_ns: 0,
                operation_count: 0,
                memory_usage_bytes: 0,
            }),
    {
        Metrics {
            reads: 0,
            writes: 0,
            deletes: 0,
            hits: 0,
            misses: 0,
            total_latency_ns: 0,
            operation_count: 0,
            memory_usage_bytes: 0,
        }
    }

    /// Records a read operation, classified as a hit or miss.
    pub fn record_read(&mut self, hit: bool, latency_ns: u64)
        ensures
            final(self)@ == after_read(old(self)@, hit, latency_ns),
    {
        self.reads = self.reads.wrapping_add(1);
        if hit {
            self.hits = self.hits.wrapping_add(1);
        } else {
            self.misses = self.misses.wrapping_add(1);
        }
        self.record_latency(latency_ns);
    }

    /// Records a write operation and the associated change in memory usage.
    pub fn record_write(&mut self, memory_delta: i64, latency_ns: u64)
        ensures
            final(self)@ == after_write(old(self)@, memory_delta, latency_ns),
    {
        self.writes = self.writes.wrapping_add(1);
        self.update_memory_usage(memory_delta);
        self.record_latency(latency_ns);
    }

    /// Records a delete operation and the associated change in memory usage.
    pub fn record_delete(&mut self, memory_delta: i64, latency_ns: u64)
        ensures
            final(self)@ == after_delete(old(self)@, memory_delta, latency_ns),
    {
        self.deletes = self.deletes.wrapping_add(1);
        self.update_memory_usage(memory_delta);
        self.record_latency(latency_ns);
    }

    /// Adds a latency sample to the running average.
    pub fn record_latency(&mut self, latency_ns: u64)
        ensures
            final(self)@ == after_latency(old(self)@, latency_ns),
    {
        self.total_latency_ns = self.total_latency_ns.wrapping_add(latency_ns);
        self.operation_count = self.operation_count.wrapping_add(1);
    }

    /// Adjusts the approximate memory-usage counter by `delta` bytes.
    pub fn update_memory_usage(&mut self, delta: i64)
        ensures
            final(self)@ == after_memory(old(self)@, delta),
    {
        self.memory_usage_bytes = self.memory_usage_bytes.wrapping_add(delta);
    }

    /// Returns a snapshot of all current counters: the average latency is
    /// the total over the number of samples (0 before any sample), and a
    /// negative memory estimate reads as 0.
    pub fn snapshot(&self) -> (r: MetricsSnapshot)
        ensures
            r == self.snapshot_view(),
            r.reads == self@.reads,
            r.writes == self@.writes,
            r.deletes == self@.deletes,
            r.hits == self@.hits,
            r.misses == self@.misses,
            r.average_latency_ns == if self@.operation_count == 0 {
                0
            } else {
                self@.total_latency_ns / self@.operation_count
            },
            r.memory_usage_bytes == if self@.memory_usage_bytes < 0 {
                0
            } else {
                self@.memory_usage_bytes as int
            },
    {
        let total_latency = self.total_latency_ns;
        let operation_count = self.operation_count;
        let average_latency_ns = if operation_count == 0 {
            0
        } else {
            total_latency / operation_count
        };
        let memory = if self.memory_usage_bytes < 0 {
            0
        } else {
            self.memory_usage_bytes as u64
        };
        MetricsSnapshot {
            reads: self.reads,
            writes: self.writes,
            deletes: self.deletes,
            hits: self.hits,
            misses: self.misses,
            average_latency_ns,
            memory_usage_bytes: memory,
        }
    }
}

} // verus!
