//! The master priority queue. Events leave the queue in the total order of
//! `Queued::spec_before`: earliest firing time first, ties broken by
//! insertion sequence and then by discriminant. The pop is a deterministic
//! scan, so the same queue contents always yield the same order.

use vstd::prelude::*;
use crate::events::Queued;
use crate::time::SimTime;

verus! {

/// The index the scan settles on: the first position holding the minimum
/// of the queue order.
pub open spec fn min_index<T>(s: Seq<Queued<T>>) -> int
    recommends
        s.len() > 0,
    decreases s.len(),
{
    if s.len() <= 1 {
        0
    } else {
        let j = min_index(s.drop_last());
        if s.last().spec_before(s[j]) {
            s.len() - 1
        } else {
            j
        }
    }
}

/// The chosen index is in range and no element is strictly earlier than
/// the element there.
pub proof fn lemma_min_index_is_min<T>(s: Seq<Queued<T>>)
    requires
        s.len() > 0,
    ensures
        0 <= min_index(s) < s.len(),
        forall|k: int| 0 <= k < s.len() ==> !(#[trigger] s[k]).spec_before(s[min_index(s)]),
    decreases s.len(),
{
    if s.len() > 1 {
        lemma_min_index_is_min(s.drop_last());
        let j = min_index(s.drop_last());
        assert forall|k: int| 0 <= k < s.len() implies !(#[trigger] s[k]).spec_before(
            s[min_index(s)],
        ) by {
            if k < s.len() - 1 {
                assert(s.drop_last()[k] == s[k]);
                assert(s.drop_last()[j] == s[j]);
                crate::events::lemma_queue_order_strict(s[k], s[j], s.last());
            }
        }
    }
}

/// The priority queue of all scheduled future events.
pub struct EventQueue<T> {
    pub items: Vec<Queued<T>>,
}

impl<T> EventQueue<T> {
    /// The queue's contents, in insertion order.
    pub open spec fn view(self) -> Seq<Queued<T>> {
        self.items@
    }

    pub fn new() -> (q: EventQueue<T>)
        ensures
            q@.len() == 0,
    {
        EventQueue { items: Vec::new() }
    }

    pub fn len(&self) -> (n: usize)
        ensures
            n == self@.len(),
    {
        self.items.len()
    }

    pub fn is_empty(&self) -> (r: bool)
        ensures
            r == (self@.len() == 0),
    {
        self.items.len() == 0
    }

    /// Adds an event to the queue.
    pub fn push(&mut self, q: Queued<T>)
        ensures
            final(self)@ == old(self)@.push(q),
    {
        self.items.push(q);
    }

    /// The index the next pop will take: the first position holding the
    /// minimum of the queue order.
    fn scan_min(&self) -> (r: usize)
        requires
            self@.len() > 0,
        ensures
            r == min_index(self@),
    {
        let n = self.items.len();
        let mut best: usize = 0;
        let mut i: usize = 1;
        while i < n
            invariant
                n == self@.len(),
                1 <= i <= n,
                0 <= best < i,
                best == min_index(self@.subrange(0, i as int)),
            decreases n - i,
        {
            proof {
                assert(self@.subrange(0, i + 1).drop_last() =~= self@.subrange(0, i as int));
                assert(self@.subrange(0, i + 1).last() == self@[i as int]);
            }
            if self.items[i].before(&self.items[best]) {
                best = i;
            }
            i = i + 1;
        }
        proof {
            assert(self@.subrange(0, n as int) =~= self@);
        }
        best
    }

    /// The firing time of the event the next pop will take, or nothing
    /// when the queue is drained.
    pub fn next_time(&self) -> (r: Option<SimTime>)
        ensures
            match r {
                Some(t) => self@.len() > 0 && t == self@[min_index(self@)].time && (forall|k: int|
                    0 <= k < self@.len() ==> t <= (#[trigger] self@[k]).time),
                None => self@.len() == 0,
            },
    {
        if self.items.len() == 0 {
            return None;
        }
        let best = self.scan_min();
        proof {
            lemma_min_index_is_min(self@);
            assert forall|k: int| 0 <= k < self@.len() implies self@[min_index(self@)].time <= (
            #[trigger] self@[k]).time by {
                assert(!self@[k].spec_before(self@[min_index(self@)]));
            }
        }
        Some(self.items[best].time)
    }

    /// Removes and returns the earliest event in the queue order: no
    /// remaining event is strictly earlier than the one returned.
    pub fn pop_min(&mut self) -> (r: Option<Queued<T>>)
        ensures
            match r {
                Some(q) => {
                    &&& old(self)@.len() > 0
                    &&& q == old(self)@[min_index(old(self)@)]
                    &&& final(self)@ == old(self)@.remove(min_index(old(self)@))
                    &&& forall|k: int|
                        0 <= k < old(self)@.len() ==> !(#[trigger] old(self)@[k]).spec_before(q)
                },
                None => old(self)@.len() == 0 && final(self)@ == old(self)@,
            },
    {
        if self.items.len() == 0 {
            return None;
        }
        let best = self.scan_min();
        proof {
            lemma_min_index_is_min(self@);
        }
        let q = self.items.remove(best);
        Some(q)
    }
}

} // verus!

verus! {

/// With distinct insertion sequences, as the kernel assigns them, the
/// scan's choice strictly precedes every other queued event: event A is
/// processed before event B exactly when A's (time, insertion sequence,
/// discriminant) triple is the smaller one.
pub proof fn lemma_min_is_strictly_first<T>(s: Seq<Queued<T>>)
    requires
        s.len() > 0,
        forall|i: int, j: int|
            0 <= i < j < s.len() ==> (#[trigger] s[i]).insert_seq != (#[trigger] s[j]).insert_seq,
    ensures
        forall|k: int|
            0 <= k < s.len() && k != min_index(s) ==> s[min_index(s)].spec_before(
                #[trigger] s[k],
            ),
{
    lemma_min_index_is_min(s);
    let m = min_index(s);
    assert forall|k: int|
        0 <= k < s.len() && k != m implies s[m].spec_before(#[trigger] s[k]) by {
        if k < m {
            assert(s[k].insert_seq != s[m].insert_seq);
        } else {
            assert(s[m].insert_seq != s[k].insert_seq);
        }
        crate::events::lemma_queue_order_strict(s[m], s[k], s[k]);
        assert(!s[k].spec_before(s[m]));
    }
}

} // verus!
