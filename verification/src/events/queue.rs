//! A bounded FIFO task queue for the storage event loop.

use vstd::prelude::*;
use std::collections::VecDeque;
use crate::events::producer::PushError;

verus! {

/// Counters kept by the queue.
#[derive(Debug, Clone, Copy)]
pub struct QueueStats {
    pub total_pushed: u64,
    pub total_popped: u64,
    pub max_queue_size: usize,
}

/// A bounded FIFO queue with its counters. A capacity of 0 means unbounded.
pub struct SharedQueue<T> {
    queue: VecDeque<T>,
    stats: QueueStats,
    max_capacity: usize,
    active_runners: usize,
}

/// The counters after a push that leaves `len` items queued.
pub open spec fn pushed(st: QueueStats, len: int) -> QueueStats {
    QueueStats {
        total_pushed: (st.total_pushed + 1) as u64,
        total_popped: st.total_popped,
        max_queue_size: if st.max_queue_size >= len {
            st.max_queue_size
        } else {
            len as usize
        },
    }
}

/// Whether a queue of capacity `cap` holding `len` items refuses a push.
pub open spec fn is_full(cap: usize, len: int) -> bool {
    cap > 0 && len >= cap
}

/// The counters after a successful take.
pub open spec fn popped(st: QueueStats) -> QueueStats {
    QueueStats { total_popped: (st.total_popped + 1) as u64, ..st }
}

/// What a queue holds: its items, front first, its counters and the
/// number of runners attached to it.
pub struct QueueState<T> {
    pub items: Seq<T>,
    pub stats: QueueStats,
    pub runners: int,
}

/// One operation on a queue.
pub enum QueueOp<T> {
    Push(T),
    Take,
    RunnerStarted,
    RunnerFinished,
}

/// The queue after one operation, as `push`, `try_recv`, `runner_started`
/// and `runner_finished` leave it: a push into a full queue and a take
/// from an empty one change nothing.
pub open spec fn after_op<T>(cap: usize, q: QueueState<T>, op: QueueOp<T>) -> QueueState<T> {
    match op {
        QueueOp::Push(x) => if is_full(cap, q.items.len() as int) {
            q
        } else {
            QueueState {
                items: q.items.push(x),
                stats: pushed(q.stats, q.items.len() + 1 as int),
                runners: q.runners,
            }
        },
        QueueOp::Take => if q.items.len() == 0 {
            q
        } else {
            QueueState { items: q.items.drop_first(), stats: popped(q.stats), runners: q.runners }
        },
        QueueOp::RunnerStarted => QueueState { runners: q.runners + 1, ..q },
        QueueOp::RunnerFinished => QueueState { runners: q.runners - 1, ..q },
    }
}

/// The queue after a sequence of operations, the items the takes handed
/// out, and the items the pushes put in, each in order.
pub open spec fn after_ops<T>(cap: usize, q: QueueState<T>, ops: Seq<QueueOp<T>>) -> (
    QueueState<T>,
    Seq<T>,
    Seq<T>,
)
    decreases ops.len(),
{
    if ops.len() == 0 {
        (q, Seq::empty(), Seq::empty())
    } else {
        let n = after_op(cap, q, ops[0]);
        let (f, out, acc) = after_ops(cap, n, ops.drop_first());
        let out0: Seq<T> = match ops[0] {
            QueueOp::Take => if q.items.len() == 0 {
                Seq::empty()
            } else {
                seq![q.items[0]]
            },
            _ => Seq::empty(),
        };
        let acc0: Seq<T> = match ops[0] {
            QueueOp::Push(x) => if is_full(cap, q.items.len() as int) {
                Seq::empty()
            } else {
                seq![x]
            },
            _ => Seq::empty(),
        };
        (f, out0 + out, acc0 + acc)
    }
}

/// How many operations of a sequence satisfy `f`.
pub open spec fn count_queue_ops<T>(ops: Seq<QueueOp<T>>, f: spec_fn(QueueOp<T>) -> bool) -> nat
    decreases ops.len(),
{
    if ops.len() == 0 {
        0
    } else {
        (if f(ops[0]) {
            1nat
        } else {
            0nat
        }) + count_queue_ops(ops.drop_first(), f)
    }
}

/// The queue is first in, first out over any sequence of operations: what
/// the takes hand out, followed by what is left, is what was queued
/// followed by what the pushes put in. A bounded queue never holds more
/// than its capacity.
pub proof fn law_queue_fifo<T>(cap: usize, q: QueueState<T>, ops: Seq<QueueOp<T>>)
    ensures
        ({
            let (f, out, acc) = after_ops(cap, q, ops);
            out + f.items == q.items + acc
        }),
        cap > 0 && q.items.len() <= cap ==> after_ops(cap, q, ops).0.items.len() <= cap,
    decreases ops.len(),
{
    if ops.len() > 0 {
        let n = after_op(cap, q, ops[0]);
        law_queue_fifo(cap, n, ops.drop_first());
        let (f, out, acc) = after_ops(cap, n, ops.drop_first());
        match ops[0] {
            QueueOp::Push(x) => {
                if !is_full(cap, q.items.len() as int) {
                    assert(q.items + (seq![x] + acc) =~= q.items.push(x) + acc);
                }
            },
            QueueOp::Take => {
                if q.items.len() > 0 {
                    assert(seq![q.items[0]] + out + f.items =~= seq![q.items[0]] + (out + f.items));
                    assert(seq![q.items[0]] + q.items.drop_first() =~= q.items);
                    assert(seq![q.items[0]] + (q.items.drop_first() + acc) =~= q.items + acc);
                }
            },
            _ => {},
        }
        assert(Seq::<T>::empty() + out =~= out);
        assert(Seq::<T>::empty() + acc =~= acc);
    } else {
        assert(Seq::<T>::empty() + q.items =~= q.items + Seq::<T>::empty());
    }
}

/// Over any sequence of operations whose counters do not overflow, the
/// number of queued items is the number pushed minus the number taken, and
/// the runners attached are those started minus those finished.
pub proof fn law_queue_counts<T>(cap: usize, q: QueueState<T>, ops: Seq<QueueOp<T>>)
    requires
        q.items.len() == q.stats.total_pushed - q.stats.total_popped,
        q.stats.total_pushed + ops.len() <= u64::MAX,
        q.stats.total_popped + ops.len() <= u64::MAX,
    ensures
        ({
            let f = after_ops(cap, q, ops).0;
            &&& f.items.len() == f.stats.total_pushed - f.stats.total_popped
            &&& f.runners == q.runners + count_queue_ops(ops, |o: QueueOp<T>| o is RunnerStarted)
                - count_queue_ops(ops, |o: QueueOp<T>| o is RunnerFinished)
        }),
    decreases ops.len(),
{
    if ops.len() > 0 {
        let n = after_op(cap, q, ops[0]);
        law_queue_counts(cap, n, ops.drop_first());
    }
}

/// `max_queue_size` is the high-water mark: over any sequence of
/// operations it never decreases, and it stays at least the queue's length
/// and at least every length the queue reached after a push.
pub proof fn law_max_queue_size_is_high_water_mark<T>(cap: usize, q: QueueState<T>, ops: Seq<QueueOp<T>>)
    requires
        q.stats.max_queue_size >= q.items.len(),
        q.items.len() + ops.len() <= usize::MAX,
    ensures
        after_ops(cap, q, ops).0.stats.max_queue_size >= q.stats.max_queue_size,
        after_ops(cap, q, ops).0.stats.max_queue_size >= after_ops(cap, q, ops).0.items.len(),
        forall|i: int|
            0 <= i <= ops.len() ==> after_ops(cap, q, ops).0.stats.max_queue_size >= #[trigger] after_ops(
                cap,
                q,
                ops.take(i),
            ).0.items.len(),
    decreases ops.len(),
{
    if ops.len() > 0 {
        let n = after_op(cap, q, ops[0]);
        let rest = ops.drop_first();
        law_max_queue_size_is_high_water_mark(cap, n, rest);
        assert forall|i: int| 0 <= i <= ops.len() implies after_ops(cap, q, ops).0.stats.max_queue_size
            >= #[trigger] after_ops(cap, q, ops.take(i)).0.items.len() by {
            if i == 0 {
                assert(ops.take(0) =~= Seq::<QueueOp<T>>::empty());
            } else {
                assert(ops.take(i).drop_first() =~= rest.take(i - 1));
                assert(ops.take(i)[0] == ops[0]);
                assert(after_ops(cap, q, ops.take(i)).0 == after_ops(cap, n, rest.take(i - 1)).0);
            }
        }
    } else {
        assert forall|i: int| 0 <= i <= ops.len() implies after_ops(cap, q, ops).0.stats.max_queue_size
            >= #[trigger] after_ops(cap, q, ops.take(i)).0.items.len() by {
            assert(ops.take(i) =~= ops);
        }
    }
}

impl<T> SharedQueue<T> {
    /// The queued items, front first.
    pub closed spec fn items(&self) -> Seq<T> {
        self.queue@
    }

    pub closed spec fn counters(&self) -> QueueStats {
        self.stats
    }

    pub closed spec fn cap(&self) -> usize {
        self.max_capacity
    }

    pub closed spec fn runners(&self) -> usize {
        self.active_runners
    }

    /// The queue as plain data.
    pub open spec fn state(&self) -> QueueState<T> {
        QueueState { items: self.items(), stats: self.counters(), runners: self.runners() as int }
    }

    /// Creates a queue bounded only by `usize::MAX`.
    pub fn new() -> (r: Self)
        ensures
            r.items() == Seq::<T>::empty(),
            r.cap() == usize::MAX,
            r.counters() == (QueueStats { total_pushed: 0, total_popped: 0, max_queue_size: 0 }),
            r.runners() == 0,
    {
        Self::with_capacity(usize::MAX)
    }

    /// Creates a bounded queue with the given maximum capacity.
    /// Capacity of 0 is treated as unbounded.
    pub fn with_capacity(max_capacity: usize) -> (r: Self)
        ensures
            r.items() == Seq::<T>::empty(),
            r.cap() == max_capacity,
            r.counters() == (QueueStats { total_pushed: 0, total_popped: 0, max_queue_size: 0 }),
            r.runners() == 0,
    {
        SharedQueue {
            queue: VecDeque::new(),
            stats: QueueStats { total_pushed: 0, total_popped: 0, max_queue_size: 0 },
            max_capacity,
            active_runners: 0,
        }
    }

    pub fn capacity(&self) -> (r: usize)
        ensures
            r == self.cap(),
    {
        self.max_capacity
    }

    pub fn active_runners(&self) -> (r: usize)
        ensures
            r == self.runners(),
    {
        self.active_runners
    }

    /// The queue's counters.
    pub fn stats(&self) -> (r: QueueStats)
        ensures
            r == self.counters(),
    {
        self.stats
    }

    /// Pushes an item at the back. If the queue is at capacity, returns
    /// `PushError::Full(item)` instead of growing unbounded.
    pub fn push(&mut self, item: T) -> (r: Result<(), PushError<T>>)
        requires
            !is_full(old(self).cap(), old(self).items().len() as int) ==> old(self).counters().total_pushed
                < u64::MAX,
        ensures
            final(self).cap() == old(self).cap(),
            final(self).runners() == old(self).runners(),
            is_full(old(self).cap(), old(self).items().len() as int) ==> r == Err::<(), PushError<T>>(PushError::Full(item))
                && *final(self) == *old(self),
            !is_full(old(self).cap(), old(self).items().len() as int) ==> r is Ok && final(self).items() == old(self).items().push(item) && final(self).counters() == pushed(
                old(self).counters(),
                final(self).items().len() as int,
            ),
            final(self).state() == after_op(old(self).cap(), old(self).state(), QueueOp::Push(item)),
    {
        let cap = self.max_capacity;
        let len = self.queue.len();
        if cap > 0 && len >= cap {
            return Err(PushError::Full(item));
        }
        self.queue.push_back(item);
        let new_len = self.queue.len();
        let mut stats = self.stats;
        stats.total_pushed = stats.total_pushed + 1;
        if stats.max_queue_size < new_len {
            stats.max_queue_size = new_len;
        }
        self.stats = stats;
        Ok(())
    }

    /// Takes the oldest item, if any, without waiting, and counts the pop.
    pub fn try_recv(&mut self) -> (r: Option<T>)
        requires
            old(self).items().len() > 0 ==> old(self).counters().total_popped < u64::MAX,
        ensures
            final(self).cap() == old(self).cap(),
            final(self).runners() == old(self).runners(),
            old(self).items().len() == 0 ==> r is None && final(self).items() == old(self).items()
                && final(self).counters() == old(self).counters(),
            old(self).items().len() > 0 ==> r == Some(old(self).items()[0]) && final(self).items()
                == old(self).items().drop_first() && final(self).counters() == popped(
                old(self).counters(),
            ),
            final(self).state() == after_op(old(self).cap(), old(self).state(), QueueOp::<T>::Take),
    {
        match self.queue.pop_front() {
            Some(item) => {
                self.stats.total_popped = self.stats.total_popped + 1;
                Some(item)
            },
            None => None,
        }
    }

    /// The number of queued items.
    pub fn len(&self) -> (r: usize)
        ensures
            r == self.items().len(),
    {
        self.queue.len()
    }

    pub fn is_empty(&self) -> (r: bool)
        ensures
            r == (self.items().len() == 0),
    {
        self.queue.len() == 0
    }

    /// Counts a runner that attached to the queue.
    pub fn runner_started(&mut self)
        requires
            old(self).runners() < usize::MAX,
        ensures
            final(self).runners() == old(self).runners() + 1,
            final(self).items() == old(self).items(),
            final(self).counters() == old(self).counters(),
            final(self).cap() == old(self).cap(),
            final(self).state() == after_op(old(self).cap(), old(self).state(), QueueOp::<T>::RunnerStarted),
    {
        self.active_runners = self.active_runners + 1;
    }

    /// Counts a runner that left the queue.
    pub fn runner_finished(&mut self)
        requires
            old(self).runners() > 0,
        ensures
            final(self).runners() == old(self).runners() - 1,
            final(self).items() == old(self).items(),
            final(self).counters() == old(self).counters(),
            final(self).cap() == old(self).cap(),
            final(self).state() == after_op(old(self).cap(), old(self).state(), QueueOp::<T>::RunnerFinished),
    {
        self.active_runners = self.active_runners - 1;
    }
}

} // verus!
