//! Ingestion timestamping and bounded consumer queues.
//!
//! Every event handed to a consumer carries a microsecond ingestion
//! timestamp that never decreases within one session, even if the clock
//! readings handed in go backwards. Consumer queues are bounded and never
//! block: on overflow one element is dropped according to the queue's
//! policy and the caller is told so.

use vstd::prelude::*;
use crate::types::{Event, TimestampedEvent, TimestampedEventV};

verus! {

/// What `Stamper::stamp` returns: the clock reading, clamped so that the
/// sequence of stamps of one session never decreases.
pub open spec fn stamp_spec(last_us: u64, now_us: u64) -> u64 {
    if now_us >= last_us {
        now_us
    } else {
        last_us
    }
}

/// A monotone ingestion clock: remembers the last timestamp it handed out
/// and never goes below it.
pub struct Stamper {
    pub last_us: u64,
}

impl Stamper {
    pub fn new() -> (s: Stamper)
        ensures
            s.last_us == 0,
    {
        Stamper { last_us: 0 }
    }

    /// Turn a raw clock reading into an ingestion timestamp.
    pub fn stamp(&mut self, now_us: u64) -> (t: u64)
        ensures
            t == stamp_spec(old(self).last_us, now_us),
            final(self).last_us == t,
            t >= old(self).last_us,
            t >= now_us,
    {
        if now_us >= self.last_us {
            self.last_us = now_us;
        }
        self.last_us
    }
}

/// Law: ingestion timestamps are monotone non-decreasing within a session,
/// whatever readings the clock delivers.
pub proof fn lemma_stamp_monotone(last_us: u64, now1: u64, now2: u64)
    ensures
        stamp_spec(stamp_spec(last_us, now1), now2) >= stamp_spec(last_us, now1),
        stamp_spec(last_us, now1) >= last_us,
{
}

/// What a bounded queue does when it is full.
#[derive(Clone, Copy, PartialEq, Eq, Structural)]
pub enum OverflowPolicy {
    DropOldest,
    DropNewest,
}

/// A bounded, never-blocking consumer queue. Pushing into a full queue
/// drops exactly one element, chosen by the policy.
pub struct BoundedQueue<T> {
    pub items: Vec<T>,
    pub cap: usize,
    pub policy: OverflowPolicy,
}

impl<T> BoundedQueue<T> {
    pub open spec fn wf(&self) -> bool {
        self.cap >= 1 && self.items@.len() <= self.cap
    }

    pub fn new(cap: usize, policy: OverflowPolicy) -> (q: BoundedQueue<T>)
        requires
            cap >= 1,
        ensures
            q.wf(),
            q.items@ == Seq::<T>::empty(),
            q.cap == cap,
            q.policy == policy,
    {
        BoundedQueue { items: Vec::new(), cap, policy }
    }

    pub fn len(&self) -> (n: usize)
        ensures
            n == self.items@.len(),
    {
        self.items.len()
    }

    /// Deliver one element. Never blocks; on overflow returns the element
    /// that was dropped (the oldest or the new one, by policy).
    pub fn push(&mut self, x: T) -> (dropped: Option<T>)
        requires
            old(self).wf(),
        ensures
            final(self).wf(),
            final(self).cap == old(self).cap,
            final(self).policy == old(self).policy,
            old(self).items@.len() < old(self).cap ==> {
                &&& final(self).items@ == old(self).items@.push(x)
                &&& dropped is None
            },
            old(self).items@.len() >= old(self).cap && old(self).policy is DropOldest ==> {
                &&& final(self).items@ == old(self).items@.drop_first().push(x)
                &&& dropped == Some(old(self).items@[0])
            },
            old(self).items@.len() >= old(self).cap && old(self).policy is DropNewest ==> {
                &&& final(self).items@ == old(self).items@
                &&& dropped == Some(x)
            },
    {
        if self.items.len() < self.cap {
            self.items.push(x);
            None
        } else {
            match self.policy {
                OverflowPolicy::DropOldest => {
                    let out = self.items.remove(0);
                    self.items.push(x);
                    proof {
                        assert(self.items@ =~= old(self).items@.drop_first().push(x));
                    }
                    Some(out)
                },
                OverflowPolicy::DropNewest => Some(x),
            }
        }
    }

    /// Take the oldest element, if any.
    pub fn pop_front(&mut self) -> (r: Option<T>)
        requires
            old(self).wf(),
        ensures
            final(self).wf(),
            final(self).cap == old(self).cap,
            final(self).policy == old(self).policy,
            old(self).items@.len() == 0 ==> r is None && final(self).items@ == old(self).items@,
            old(self).items@.len() > 0 ==> {
                &&& r == Some(old(self).items@[0])
                &&& final(self).items@ == old(self).items@.drop_first()
            },
    {
        if self.items.len() == 0 {
            None
        } else {
            let out = self.items.remove(0);
            proof {
                assert(self.items@ =~= old(self).items@.drop_first());
            }
            Some(out)
        }
    }
}

/// The stamped contents of a consumer queue.
pub open spec fn q_view(q: BoundedQueue<TimestampedEvent>) -> Seq<TimestampedEventV> {
    q.items@.map_values(|e: TimestampedEvent| e@)
}

/// What one delivery does to one queue's contents.
pub open spec fn push_view(
    items: Seq<TimestampedEventV>,
    x: TimestampedEventV,
    cap: int,
    policy: OverflowPolicy,
) -> Seq<TimestampedEventV> {
    if items.len() < cap {
        items.push(x)
    } else {
        match policy {
            OverflowPolicy::DropOldest => items.drop_first().push(x),
            OverflowPolicy::DropNewest => items,
        }
    }
}

/// How many of these queues are full, so would drop on the next delivery.
pub open spec fn full_count(qs: Seq<BoundedQueue<TimestampedEvent>>) -> int
    decreases qs.len(),
{
    if qs.len() == 0 {
        0
    } else {
        full_count(qs.drop_last()) + if qs.last().items@.len() >= qs.last().cap {
            1int
        } else {
            0int
        }
    }
}

/// The fan-out: one monotone ingestion clock and any number of bounded
/// consumer queues. One classified event in, one identically-stamped copy
/// to every queue; full queues drop by their policy and are counted, the
/// rest are never blocked on.
pub struct FanOut {
    pub stamper: Stamper,
    pub queues: Vec<BoundedQueue<TimestampedEvent>>,
}

impl FanOut {
    pub open spec fn wf(&self) -> bool {
        forall|i: int| 0 <= i < self.queues@.len() ==> self.queues@[i].wf()
    }

    pub fn new() -> (f: FanOut)
        ensures
            f.wf(),
            f.queues@.len() == 0,
            f.stamper.last_us == 0,
    {
        FanOut { stamper: Stamper::new(), queues: Vec::new() }
    }

    /// Register one more consumer queue.
    pub fn add_queue(&mut self, cap: usize, policy: OverflowPolicy)
        requires
            old(self).wf(),
            cap >= 1,
        ensures
            final(self).wf(),
            final(self).stamper == old(self).stamper,
            final(self).queues@.len() == old(self).queues@.len() + 1,
            forall|i: int|
                0 <= i < old(self).queues@.len() ==> final(self).queues@[i] == old(
                    self,
                ).queues@[i],
            final(self).queues@.last().cap == cap,
            final(self).queues@.last().policy == policy,
            final(self).queues@.last().items@.len() == 0,
    {
        self.queues.push(BoundedQueue::new(cap, policy));
    }

    /// Deliver one event to every queue, stamped once with the monotone
    /// ingestion clock. Returns how many consumers dropped it.
    pub fn dispatch(&mut self, ev: &Event, now_us: u64) -> (dropped: usize)
        requires
            old(self).wf(),
        ensures
            final(self).wf(),
            final(self).stamper.last_us == stamp_spec(old(self).stamper.last_us, now_us),
            final(self).queues@.len() == old(self).queues@.len(),
            forall|i: int|
                #![trigger final(self).queues@[i]]
                0 <= i < old(self).queues@.len() ==> {
                    let oq = old(self).queues@[i];
                    let nq = final(self).queues@[i];
                    &&& nq.cap == oq.cap
                    &&& nq.policy == oq.policy
                    &&& q_view(nq) == push_view(
                        q_view(oq),
                        TimestampedEventV {
                            ingest_ts_micros: stamp_spec(old(self).stamper.last_us, now_us),
                            event: ev@,
                        },
                        oq.cap as int,
                        oq.policy,
                    )
                },
            dropped == full_count(old(self).queues@),
    {
        let ghost old_q = self.queues@;
        let ts = self.stamper.stamp(now_us);
        let ghost x = TimestampedEventV { ingest_ts_micros: ts, event: ev@ };
        let n = self.queues.len();
        let mut done: Vec<BoundedQueue<TimestampedEvent>> = Vec::new();
        let mut dropped: usize = 0;
        let mut i: usize = 0;
        proof {
            assert(self.queues@ =~= old_q.skip(0));
        }
        while i < n
            invariant
                i <= n,
                n == old_q.len(),
                dropped <= i,
                self.stamper.last_us == ts,
                x == (TimestampedEventV { ingest_ts_micros: ts, event: ev@ }),
                self.queues@ == old_q.skip(i as int),
                done@.len() == i,
                forall|j: int| 0 <= j < old_q.len() ==> old_q[j].wf(),
                forall|j: int|
                    #![trigger done@[j]]
                    0 <= j < i ==> {
                        let oq = old_q[j];
                        let nq = done@[j];
                        &&& nq.wf()
                        &&& nq.cap == oq.cap
                        &&& nq.policy == oq.policy
                        &&& q_view(nq) == push_view(q_view(oq), x, oq.cap as int, oq.policy)
                    },
                dropped == full_count(old_q.take(i as int)),
            decreases n - i,
        {
            let ghost pre = self.queues@;
            let mut q = self.queues.remove(0);
            proof {
                assert(self.queues@ =~= old_q.skip(i + 1));
                assert(pre[0] == old_q[i as int]);
            }
            let copy = TimestampedEvent { ingest_ts_micros: ts, event: ev.duplicate() };
            let ghost pre_q = q;
            let r = q.push(copy);
            if r.is_some() {
                dropped = dropped + 1;
            }
            proof {
                assert(copy@ == x);
                assert(pre_q == old_q[i as int]);
                if pre_q.items@.len() < pre_q.cap {
                    assert(q.items@ == pre_q.items@.push(copy));
                    assert(q_view(q) =~= q_view(pre_q).push(x));
                } else {
                    match pre_q.policy {
                        OverflowPolicy::DropOldest => {
                            assert(q.items@ == pre_q.items@.drop_first().push(copy));
                            assert(q_view(q) =~= q_view(pre_q).drop_first().push(x));
                        },
                        OverflowPolicy::DropNewest => {
                            assert(q_view(q) =~= q_view(pre_q));
                        },
                    }
                }
                assert(q_view(q) == push_view(
                    q_view(pre_q),
                    x,
                    pre_q.cap as int,
                    pre_q.policy,
                ));
            }
            done.push(q);
            proof {
                assert(old_q.take(i + 1).drop_last() =~= old_q.take(i as int));
                assert(old_q.take(i + 1).last() == old_q[i as int]);
            }
            i += 1;
        }
        self.queues = done;
        proof {
            assert(old_q.take(n as int) =~= old_q);
        }
        dropped
    }
}

} // verus!
