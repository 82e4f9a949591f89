//! Timer management for a single node. Cancellation uses a tombstone: a
//! cancelled timer's queued event stays in the master queue, but firing it
//! is a silent no-op.

use vstd::prelude::*;
use crate::ids::TimerId;

verus! {

/// Whether a sequence of timer ids holds the given id.
pub open spec fn id_in(s: Seq<TimerId>, id: TimerId) -> bool {
    exists|i: int| 0 <= i < s.len() && s[i] == id
}

/// The timer book of one node: the ids that are live, and among them the
/// ids whose cancellation has been requested.
#[derive(Debug)]
pub struct TimerWheel {
    pub active: Vec<TimerId>,
    pub cancelled: Vec<TimerId>,
}

impl TimerWheel {
    /// Well-formed: no duplicates, and every cancelled id is still listed
    /// as active until its event surfaces.
    pub open spec fn wf(self) -> bool {
        &&& forall|i: int, j: int| 0 <= i < j < self.active.len() ==> self.active[i] != self.active[j]
        &&& forall|i: int, j: int|
            0 <= i < j < self.cancelled.len() ==> self.cancelled[i] != self.cancelled[j]
        &&& forall|i: int|
            0 <= i < self.cancelled.len() ==> id_in(self.active@, #[trigger] self.cancelled[i])
    }

    /// A timer id is live when it is active and not cancelled; only a live
    /// timer reaches the protocol when its event surfaces.
    pub open spec fn live(self, id: TimerId) -> bool {
        id_in(self.active@, id) && !id_in(self.cancelled@, id)
    }

    pub fn new() -> (w: TimerWheel)
        ensures
            w.active@.len() == 0,
            w.cancelled@.len() == 0,
            w.wf(),
    {
        TimerWheel { active: Vec::new(), cancelled: Vec::new() }
    }

    /// Registers a fresh timer id as live.
    pub fn add_timer(&mut self, timer_id: TimerId)
        requires
            old(self).wf(),
            !id_in(old(self).active@, timer_id),
        ensures
            final(self).wf(),
            final(self).active@ == old(self).active@.push(timer_id),
            final(self).cancelled@ == old(self).cancelled@,
            final(self).live(timer_id),
            forall|id: TimerId| id != timer_id ==> final(self).live(id) == old(self).live(id),
    {
        let ghost old_active = self.active@;
        self.active.push(timer_id);
        proof {
            assert forall|i: int|
                0 <= i < self.cancelled.len() implies id_in(
                self.active@,
                #[trigger] self.cancelled[i],
            ) by {
                let j = choose|j: int| 0 <= j < old_active.len() && old_active[j]
                    == self.cancelled[i];
                assert(self.active@[j] == self.cancelled[i]);
            }
            assert(self.active@[old_active.len() as int] == timer_id);
            assert forall|id: TimerId| id != timer_id implies final(self).live(id) == old(
                self,
            ).live(id) by {
                if id_in(self.active@, id) {
                    let j = choose|j: int| 0 <= j < self.active@.len() && self.active@[j] == id;
                    assert(old_active[j] == id);
                }
                if id_in(old_active, id) {
                    let j = choose|j: int| 0 <= j < old_active.len() && old_active[j] == id;
                    assert(self.active@[j] == id);
                }
            }
        }
    }

    /// Requests cancellation: true exactly when the id is still active, in
    /// which case the id will never again reach the protocol.
    pub fn cancel_timer(&mut self, timer_id: TimerId) -> (r: bool)
        requires
            old(self).wf(),
        ensures
            final(self).wf(),
            r == id_in(old(self).active@, timer_id),
            final(self).active@ == old(self).active@,
            !final(self).live(timer_id),
            forall|id: TimerId| id != timer_id ==> final(self).live(id) == old(self).live(id),
    {
        if contains_id(&self.active, timer_id) {
            if !contains_id(&self.cancelled, timer_id) {
                let ghost old_cancelled = self.cancelled@;
                self.cancelled.push(timer_id);
                proof {
                    assert(self.cancelled@[old_cancelled.len() as int] == timer_id);
                    assert forall|i: int|
                        0 <= i < self.cancelled.len() implies id_in(
                        self.active@,
                        #[trigger] self.cancelled[i],
                    ) by {}
                    assert forall|id: TimerId| id != timer_id implies id_in(self.cancelled@, id)
                        == id_in(old_cancelled, id) by {
                        if id_in(self.cancelled@, id) {
                            let j = choose|j: int|
                                0 <= j < self.cancelled@.len() && self.cancelled@[j] == id;
                            assert(old_cancelled[j] == id);
                        }
                        if id_in(old_cancelled, id) {
                            let j = choose|j: int|
                                0 <= j < old_cancelled.len() && old_cancelled[j] == id;
                            assert(self.cancelled@[j] == id);
                        }
                    }
                }
            }
            true
        } else {
            false
        }
    }

    /// Answers whether a surfacing timer event is still valid, and retires
    /// the id either way. True exactly when the timer was live.
    pub fn fire_timer(&mut self, timer_id: TimerId) -> (r: bool)
        requires
            old(self).wf(),
        ensures
            final(self).wf(),
            r == old(self).live(timer_id),
            !final(self).live(timer_id),
            !id_in(final(self).active@, timer_id),
            forall|id: TimerId| id != timer_id ==> final(self).live(id) == old(self).live(id),
            forall|id: TimerId|
                id != timer_id ==> id_in(final(self).active@, id) == id_in(
                    old(self).active@,
                    id,
                ),
    {
        let was_active = remove_id(&mut self.active, timer_id);
        let ghost mid_active = self.active@;
        let was_cancelled = remove_id(&mut self.cancelled, timer_id);
        proof {
            assert forall|i: int|
                0 <= i < self.cancelled.len() implies id_in(
                self.active@,
                #[trigger] self.cancelled[i],
            ) by {
                assert(id_in(old(self).cancelled@, self.cancelled[i]));
                assert(id_in(old(self).active@, self.cancelled[i]));
                assert(self.cancelled[i] != timer_id);
            }
        }
        was_active && !was_cancelled
    }

    /// Drops every pending timer at once, as a crash does. Events already
    /// queued will surface as non-live and are discarded.
    pub fn clear(&mut self)
        ensures
            final(self).wf(),
            final(self).active@.len() == 0,
            final(self).cancelled@.len() == 0,
            forall|id: TimerId| !final(self).live(id),
    {
        self.active.clear();
        self.cancelled.clear();
    }

    /// The number of live timers.
    pub fn active_timers(&self) -> (n: usize)
        requires
            self.wf(),
        ensures
            n == self.active@.len() - self.cancelled@.len(),
    {
        proof {
            lemma_distinct_subset_len(self.cancelled@, self.active@);
        }
        self.active.len() - self.cancelled.len()
    }
}

/// A sequence of distinct ids all of which occur in another sequence of
/// distinct ids is no longer than it.
proof fn lemma_distinct_subset_len(sub: Seq<TimerId>, sup: Seq<TimerId>)
    requires
        forall|i: int, j: int| 0 <= i < j < sub.len() ==> sub[i] != sub[j],
        forall|i: int, j: int| 0 <= i < j < sup.len() ==> sup[i] != sup[j],
        forall|i: int| 0 <= i < sub.len() ==> id_in(sup, #[trigger] sub[i]),
    ensures
        sub.len() <= sup.len(),
    decreases sub.len(),
{
    if sub.len() > 0 {
        let x = sub.last();
        let k = choose|k: int| 0 <= k < sup.len() && sup[k] == x;
        let sup2 = sup.remove(k);
        let sub2 = sub.drop_last();
        assert forall|i: int| 0 <= i < sub2.len() implies id_in(sup2, #[trigger] sub2[i]) by {
            assert(sub[i] == sub2[i]);
            assert(id_in(sup, sub2[i]));
            let m = choose|m: int| 0 <= m < sup.len() && sup[m] == sub2[i];
            assert(sub2[i] != x);
            assert(m != k);
            if m < k {
                assert(sup2[m] == sup[m]);
            } else {
                assert(sup2[m - 1] == sup[m]);
            }
        }
        lemma_distinct_subset_len(sub2, sup2);
    }
}

/// Whether the vector holds the id.
fn contains_id(v: &Vec<TimerId>, id: TimerId) -> (r: bool)
    ensures
        r == id_in(v@, id),
{
    let n = v.len();
    let mut i: usize = 0;
    while i < n
        invariant
            n == v.len(),
            0 <= i <= n,
            forall|m: int| 0 <= m < i ==> v@[m] != id,
        decreases n - i,
    {
        if v[i] == id {
            return true;
        }
        i = i + 1;
    }
    false
}

/// Removes the id if present; true when it was. On a vector of distinct
/// ids the result holds exactly the other ids.
fn remove_id(v: &mut Vec<TimerId>, id: TimerId) -> (r: bool)
    requires
        forall|i: int, j: int| 0 <= i < j < old(v)@.len() ==> old(v)@[i] != old(v)@[j],
    ensures
        r == id_in(old(v)@, id),
        forall|i: int, j: int| 0 <= i < j < final(v)@.len() ==> final(v)@[i] != final(v)@[j],
        !id_in(final(v)@, id),
        forall|x: TimerId| x != id ==> id_in(final(v)@, x) == id_in(old(v)@, x),
        final(v)@.len() == old(v)@.len() - (if id_in(old(v)@, id) {
            1int
        } else {
            0int
        }),
{
    let n = v.len();
    let mut i: usize = 0;
    while i < n
        invariant
            n == v.len(),
            v@ == old(v)@,
            0 <= i <= n,
            forall|m: int| 0 <= m < i ==> v@[m] != id,
            forall|a: int, b: int| 0 <= a < b < v@.len() ==> v@[a] != v@[b],
        decreases n - i,
    {
        if v[i] == id {
            let ghost before = v@;
            v.remove(i);
            proof {
                assert(before[i as int] == id);
                assert forall|x: TimerId| x != id implies id_in(v@, x) == id_in(before, x) by {
                    if id_in(v@, x) {
                        let m = choose|m: int| 0 <= m < v@.len() && v@[m] == x;
                        if m < i {
                            assert(before[m] == x);
                        } else {
                            assert(before[m + 1] == x);
                        }
                    }
                    if id_in(before, x) {
                        let m = choose|m: int| 0 <= m < before.len() && before[m] == x;
                        assert(m != i);
                        if m < i {
                            assert(v@[m] == x);
                        } else {
                            assert(v@[m - 1] == x);
                        }
                    }
                }
                assert(!id_in(v@, id)) by {
                    if id_in(v@, id) {
                        let m = choose|m: int| 0 <= m < v@.len() && v@[m] == id;
                        if m < i {
                            assert(before[m] == id);
                        } else {
                            assert(before[m + 1] == id);
                            assert(before[m + 1] != before[i as int]);
                        }
                    }
                }
                assert forall|a: int, b: int| 0 <= a < b < v@.len() implies v@[a] != v@[b] by {
                    let a2: int = if a < i {
                        a
                    } else {
                        a + 1
                    };
                    let b2: int = if b < i {
                        b
                    } else {
                        b + 1
                    };
                    assert(v@[a] == before[a2]);
                    assert(v@[b] == before[b2]);
                }
            }
            return true;
        }
        i = i + 1;
    }
    false
}

} // verus!
