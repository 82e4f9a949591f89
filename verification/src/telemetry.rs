//! The observability subsystem: metrics counters, per-node visualization
//! key-values, a ring of recent event summaries, and the snapshot a
//! consumer outside the simulation reads. All of it is side data: nothing
//! here influences simulation state.

use vstd::prelude::*;
use crate::ids::{EventId, LinkId, NodeId};
use crate::time::SimTime;

verus! {

/// How many recent events the ring keeps.
pub const RECENT_EVENTS_CAP: usize = 100;

/// The operational status of a node, as the world and snapshots report it.
#[derive(Debug, Clone, Copy, PartialEq, Eq, Structural)]
pub enum NodeStatus {
    /// Running normally.
    Up,
    /// Crashed; it processes no events.
    Down,
    /// Warming up after a restart.
    Recovering,
}

/// The counters the simulation maintains, with drops split by reason.
#[derive(Debug, Clone, Copy, PartialEq, Eq, Structural, Default)]
pub struct MetricsSnapshot {
    pub messages_sent: u64,
    pub messages_delivered: u64,
    pub timers_fired: u64,
    pub faults_injected: u64,
    pub dropped_partition: u64,
    pub dropped_probability: u64,
    pub dropped_node_down: u64,
}

/// One of the counters of `MetricsSnapshot`.
#[derive(Debug, Clone, Copy, PartialEq, Eq, Structural)]
pub enum Metric {
    MessagesSent,
    MessagesDelivered,
    TimersFired,
    FaultsInjected,
    DroppedPartition,
    DroppedProbability,
    DroppedNodeDown,
}

/// The counters with one of them raised by one, saturating.
pub open spec fn spec_metric_bump(m: MetricsSnapshot, which: Metric) -> MetricsSnapshot {
    match which {
        Metric::MessagesSent => MetricsSnapshot {
            messages_sent: spec_sat_inc(m.messages_sent),
            ..m
        },
        Metric::MessagesDelivered => MetricsSnapshot {
            messages_delivered: spec_sat_inc(m.messages_delivered),
            ..m
        },
        Metric::TimersFired => MetricsSnapshot { timers_fired: spec_sat_inc(m.timers_fired), ..m },
        Metric::FaultsInjected => MetricsSnapshot {
            faults_injected: spec_sat_inc(m.faults_injected),
            ..m
        },
        Metric::DroppedPartition => MetricsSnapshot {
            dropped_partition: spec_sat_inc(m.dropped_partition),
            ..m
        },
        Metric::DroppedProbability => MetricsSnapshot {
            dropped_probability: spec_sat_inc(m.dropped_probability),
            ..m
        },
        Metric::DroppedNodeDown => MetricsSnapshot {
            dropped_node_down: spec_sat_inc(m.dropped_node_down),
            ..m
        },
    }
}

pub open spec fn spec_sat_inc(n: u64) -> u64 {
    if n < u64::MAX {
        (n + 1) as u64
    } else {
        n
    }
}

/// A counter after `n` saturating increments.
pub open spec fn spec_sat_add(a: u64, n: nat) -> u64 {
    if a + n <= u64::MAX {
        (a + n) as u64
    } else {
        u64::MAX
    }
}

fn sat_inc(n: u64) -> (r: u64)
    ensures
        r == spec_sat_inc(n),
{
    if n < u64::MAX {
        n + 1
    } else {
        n
    }
}

/// A short summary of one recent simulation event.
#[derive(Debug, Clone)]
pub struct LogSnap {
    pub event_id: EventId,
    pub time: SimTime,
    pub event_type: String,
    pub details: String,
    pub node_id: Option<NodeId>,
}

/// A snapshot of one link's state.
#[derive(Debug, Clone, Copy, PartialEq, Eq, Structural)]
pub struct LinkSnap {
    pub id: LinkId,
    pub src: NodeId,
    pub dst: NodeId,
    pub is_partitioned: bool,
}

/// A visualization key-value pair attached to a node.
#[derive(Debug, Clone)]
pub struct KvPair {
    pub key: String,
    pub value: String,
}

/// A snapshot of one node's state.
#[derive(Debug, Clone)]
pub struct NodeSnap {
    pub id: NodeId,
    pub status: NodeStatus,
    pub timers: usize,
    pub byzantine: bool,
    /// Protocol-specific state exposed for visualization.
    pub custom: Vec<KvPair>,
}

/// A point-in-time view of the simulation published to observers.
#[derive(Debug, Clone)]
pub struct Snapshot {
    pub time: SimTime,
    pub nodes: Vec<NodeSnap>,
    pub links: Vec<LinkSnap>,
    pub recent_events: Vec<LogSnap>,
    pub metrics: MetricsSnapshot,
}

/// Whether a key-value list holds the given key.
pub open spec fn kvs_contains(s: Seq<KvPair>, k: Seq<char>) -> bool {
    exists|i: int| 0 <= i < s.len() && s[i].key@ == k
}

/// The value a key-value list holds for a key it contains.
pub open spec fn kvs_value(s: Seq<KvPair>, k: Seq<char>) -> Seq<char> {
    let i = choose|i: int| 0 <= i < s.len() && s[i].key@ == k;
    s[i].value@
}

/// Distinct keys throughout a key-value list.
pub open spec fn kvs_wf(s: Seq<KvPair>) -> bool {
    forall|i: int, j: int| 0 <= i < j < s.len() ==> s[i].key@ != s[j].key@
}

/// The collector of logs, metrics and per-node state that the simulation
/// fills as it runs and that snapshots are built from.
#[derive(Debug)]
pub struct TelemetryBus {
    /// The time of the event being processed.
    pub time: SimTime,
    /// The id of the event being processed.
    pub event_id: EventId,
    /// Visualization key-values, one list per node.
    pub node_kvs: Vec<Vec<KvPair>>,
    /// The most recent event summaries, oldest first, at most
    /// `RECENT_EVENTS_CAP`.
    pub recent_events: Vec<LogSnap>,
    /// The running counters.
    pub metrics: MetricsSnapshot,
}

impl TelemetryBus {
    pub open spec fn wf(self) -> bool {
        &&& self.recent_events@.len() <= RECENT_EVENTS_CAP
        &&& forall|i: int| 0 <= i < self.node_kvs@.len() ==> kvs_wf(#[trigger] self.node_kvs@[i]@)
    }

    pub fn new(num_nodes: usize) -> (t: TelemetryBus)
        ensures
            t.wf(),
            t.time == 0,
            t.event_id == 0,
            t.node_kvs@.len() == num_nodes,
            forall|i: int| 0 <= i < num_nodes ==> (#[trigger] t.node_kvs@[i])@.len() == 0,
            t.recent_events@.len() == 0,
            t.metrics == MetricsSnapshot::spec_zero(),
    {
        let mut node_kvs: Vec<Vec<KvPair>> = Vec::new();
        let mut i: usize = 0;
        while i < num_nodes
            invariant
                0 <= i <= num_nodes,
                node_kvs@.len() == i,
                forall|j: int| 0 <= j < i ==> (#[trigger] node_kvs@[j])@.len() == 0,
            decreases num_nodes - i,
        {
            node_kvs.push(Vec::new());
            i = i + 1;
        }
        TelemetryBus {
            time: 0,
            event_id: 0,
            node_kvs,
            recent_events: Vec::new(),
            metrics: MetricsSnapshot::zero(),
        }
    }

    /// Points the context at the event being processed.
    pub fn set_current_time(&mut self, time: SimTime, event_id: EventId)
        ensures
            *final(self) == (TelemetryBus { time, event_id, ..*old(self) }),
    {
        self.time = time;
        self.event_id = event_id;
    }

    /// Attaches a visualization key-value to a node, replacing any earlier
    /// value for the same key. A node id out of range is ignored.
    pub fn log_node_kv(&mut self, node_id: NodeId, key: String, value: String)
        requires
            old(self).wf(),
        ensures
            final(self).wf(),
            final(self).time == old(self).time,
            final(self).event_id == old(self).event_id,
            final(self).recent_events == old(self).recent_events,
            final(self).metrics == old(self).metrics,
            final(self).node_kvs@.len() == old(self).node_kvs@.len(),
            forall|i: int|
                0 <= i < old(self).node_kvs@.len() && i != node_id ==> final(self).node_kvs@[i]
                    == old(self).node_kvs@[i],
            node_id < old(self).node_kvs@.len() ==> {
                &&& kvs_contains(final(self).node_kvs@[node_id as int]@, key@)
                &&& kvs_value(final(self).node_kvs@[node_id as int]@, key@) == value@
            },
    {
        if (node_id as usize) < self.node_kvs.len() {
            let list = &mut self.node_kvs[node_id as usize];
            kvs_put(list, key, value);
        }
    }

    /// Appends a summary of the event being processed to the ring,
    /// discarding the oldest entry when the ring is full.
    pub fn log_event(&mut self, event_type: String, details: String, node_id: Option<NodeId>)
        requires
            old(self).wf(),
        ensures
            final(self).wf(),
            final(self).time == old(self).time,
            final(self).event_id == old(self).event_id,
            final(self).node_kvs == old(self).node_kvs,
            final(self).metrics == old(self).metrics,
            final(self).recent_events@.len() <= RECENT_EVENTS_CAP,
            final(self).recent_events@.len() > 0,
            ({
                let e = final(self).recent_events@.last();
                e.event_id == old(self).event_id && e.time == old(self).time && e.event_type@
                    == event_type@ && e.details@ == details@ && e.node_id == node_id
            }),
            old(self).recent_events@.len() < RECENT_EVENTS_CAP ==> final(self).recent_events@.drop_last() == old(self).recent_events@,
            old(self).recent_events@.len() == RECENT_EVENTS_CAP ==> final(self).recent_events@.drop_last() == old(self).recent_events@.drop_first(),
    {
        if self.recent_events.len() >= RECENT_EVENTS_CAP {
            self.recent_events.remove(0);
            proof {
                assert(self.recent_events@ =~= old(self).recent_events@.drop_first());
            }
        }
        let snap = LogSnap {
            event_id: self.event_id,
            time: self.time,
            event_type,
            details,
            node_id,
        };
        self.recent_events.push(snap);
        proof {
            assert(self.recent_events@.drop_last() =~= self.recent_events@.subrange(
                0,
                self.recent_events@.len() - 1,
            ));
        }
    }

    /// Raises one counter by one.
    pub fn increment_metric(&mut self, which: Metric)
        ensures
            *final(self) == (TelemetryBus {
                metrics: spec_metric_bump(old(self).metrics, which),
                ..*old(self)
            }),
    {
        match which {
            Metric::MessagesSent => {
                self.metrics.messages_sent = sat_inc(self.metrics.messages_sent);
            },
            Metric::MessagesDelivered => {
                self.metrics.messages_delivered = sat_inc(self.metrics.messages_delivered);
            },
            Metric::TimersFired => {
                self.metrics.timers_fired = sat_inc(self.metrics.timers_fired);
            },
            Metric::FaultsInjected => {
                self.metrics.faults_injected = sat_inc(self.metrics.faults_injected);
            },
            Metric::DroppedPartition => {
                self.metrics.dropped_partition = sat_inc(self.metrics.dropped_partition);
            },
            Metric::DroppedProbability => {
                self.metrics.dropped_probability = sat_inc(self.metrics.dropped_probability);
            },
            Metric::DroppedNodeDown => {
                self.metrics.dropped_node_down = sat_inc(self.metrics.dropped_node_down);
            },
        }
    }
}

impl MetricsSnapshot {
    pub open spec fn spec_zero() -> MetricsSnapshot {
        MetricsSnapshot {
            messages_sent: 0,
            messages_delivered: 0,
            timers_fired: 0,
            faults_injected: 0,
            dropped_partition: 0,
            dropped_probability: 0,
            dropped_node_down: 0,
        }
    }

    pub fn zero() -> (m: MetricsSnapshot)
        ensures
            m == MetricsSnapshot::spec_zero(),
    {
        MetricsSnapshot {
            messages_sent: 0,
            messages_delivered: 0,
            timers_fired: 0,
            faults_injected: 0,
            dropped_partition: 0,
            dropped_probability: 0,
            dropped_node_down: 0,
        }
    }
}

/// Compares two strings character for character.
pub fn str_eq(a: &String, b: &String) -> (r: bool)
    ensures
        r == (a@ == b@),
{
    a.eq(b)
}

/// Inserts or replaces the value for a key in a key-value list with
/// distinct keys. Every other key keeps its value.
fn kvs_put(list: &mut Vec<KvPair>, key: String, value: String)
    requires
        kvs_wf(old(list)@),
    ensures
        kvs_wf(final(list)@),
        kvs_contains(final(list)@, key@),
        kvs_value(final(list)@, key@) == value@,
        forall|k2: Seq<char>|
            k2 != key@ ==> kvs_contains(final(list)@, k2) == kvs_contains(old(list)@, k2),
        forall|k2: Seq<char>|
            k2 != key@ && kvs_contains(old(list)@, k2) ==> kvs_value(final(list)@, k2) == kvs_value(
                old(list)@,
                k2,
            ),
{
    let n = list.len();
    let mut i: usize = 0;
    while i < n
        invariant
            list == old(list),
            kvs_wf(list@),
            n == list@.len(),
            0 <= i <= n,
            forall|m: int| 0 <= m < i ==> list@[m].key@ != key@,
        decreases n - i,
    {
        if str_eq(&list[i].key, &key) {
            let ghost before = list@;
            let entry = &mut list[i];
            entry.value = value;
            proof {
                lemma_kvs_update(before, list@, i as int, key@);
            }
            return ;
        }
        i = i + 1;
    }
    let ghost before = list@;
    list.push(KvPair { key, value });
    proof {
        lemma_kvs_insert_new(before, list@, key@);
    }
}

proof fn lemma_kvs_update(old_kv: Seq<KvPair>, new_kv: Seq<KvPair>, i: int, k: Seq<char>)
    requires
        0 <= i < old_kv.len(),
        new_kv.len() == old_kv.len(),
        old_kv[i].key@ == k,
        new_kv[i].key@ == k,
        forall|m: int| 0 <= m < old_kv.len() && m != i ==> new_kv[m] == old_kv[m],
        kvs_wf(old_kv),
    ensures
        kvs_wf(new_kv),
        kvs_contains(new_kv, k),
        kvs_value(new_kv, k) == new_kv[i].value@,
        forall|k2: Seq<char>| k2 != k ==> kvs_contains(new_kv, k2) == kvs_contains(old_kv, k2),
        forall|k2: Seq<char>|
            k2 != k && kvs_contains(old_kv, k2) ==> kvs_value(new_kv, k2) == kvs_value(old_kv, k2),
{
    assert(kvs_contains(new_kv, k));
    let j = choose|j: int| 0 <= j < new_kv.len() && new_kv[j].key@ == k;
    if j != i {
        assert(old_kv[j].key@ == k);
        assert(old_kv[i].key@ == k);
        assert(false);
    }
    assert forall|k2: Seq<char>| k2 != k implies kvs_contains(new_kv, k2) == kvs_contains(
        old_kv,
        k2,
    ) by {
        if kvs_contains(new_kv, k2) {
            let a = choose|a: int| 0 <= a < new_kv.len() && new_kv[a].key@ == k2;
            assert(a != i);
            assert(old_kv[a].key@ == k2);
        }
        if kvs_contains(old_kv, k2) {
            let a = choose|a: int| 0 <= a < old_kv.len() && old_kv[a].key@ == k2;
            assert(a != i);
            assert(new_kv[a].key@ == k2);
        }
    }
    assert forall|k2: Seq<char>| k2 != k && kvs_contains(old_kv, k2) implies kvs_value(new_kv, k2)
        == kvs_value(old_kv, k2) by {
        let a = choose|a: int| 0 <= a < old_kv.len() && old_kv[a].key@ == k2;
        let b = choose|b: int| 0 <= b < new_kv.len() && new_kv[b].key@ == k2;
        assert(a != i);
        assert(b != i);
        assert(old_kv[b].key@ == k2);
        if a != b {
            assert(false);
        }
    }
}

proof fn lemma_kvs_insert_new(old_kv: Seq<KvPair>, new_kv: Seq<KvPair>, k: Seq<char>)
    requires
        new_kv.len() == old_kv.len() + 1,
        forall|m: int| 0 <= m < old_kv.len() ==> new_kv[m] == old_kv[m],
        new_kv[old_kv.len() as int].key@ == k,
        !kvs_contains(old_kv, k),
        kvs_wf(old_kv),
    ensures
        kvs_wf(new_kv),
        kvs_contains(new_kv, k),
        kvs_value(new_kv, k) == new_kv[old_kv.len() as int].value@,
        forall|k2: Seq<char>| k2 != k ==> kvs_contains(new_kv, k2) == kvs_contains(old_kv, k2),
        forall|k2: Seq<char>|
            k2 != k && kvs_contains(old_kv, k2) ==> kvs_value(new_kv, k2) == kvs_value(old_kv, k2),
{
    let n = old_kv.len() as int;
    assert(kvs_contains(new_kv, k));
    let j = choose|j: int| 0 <= j < new_kv.len() && new_kv[j].key@ == k;
    if j != n {
        assert(old_kv[j].key@ == k);
        assert(false);
    }
    assert forall|k2: Seq<char>| k2 != k implies kvs_contains(new_kv, k2) == kvs_contains(
        old_kv,
        k2,
    ) by {
        if kvs_contains(new_kv, k2) {
            let a = choose|a: int| 0 <= a < new_kv.len() && new_kv[a].key@ == k2;
            assert(a != n);
            assert(old_kv[a].key@ == k2);
        }
        if kvs_contains(old_kv, k2) {
            let a = choose|a: int| 0 <= a < old_kv.len() && old_kv[a].key@ == k2;
            assert(new_kv[a].key@ == k2);
        }
    }
    assert forall|k2: Seq<char>| k2 != k && kvs_contains(old_kv, k2) implies kvs_value(new_kv, k2)
        == kvs_value(old_kv, k2) by {
        let a = choose|a: int| 0 <= a < old_kv.len() && old_kv[a].key@ == k2;
        let b = choose|b: int| 0 <= b < new_kv.len() && new_kv[b].key@ == k2;
        assert(b != n);
        assert(old_kv[b].key@ == k2);
        if a != b {
            assert(false);
        }
    }
    assert forall|a: int, b: int| 0 <= a < b < new_kv.len() implies new_kv[a].key@
        != new_kv[b].key@ by {
        if b == n {
            if new_kv[a].key@ == new_kv[b].key@ {
                assert(old_kv[a].key@ == k);
                assert(kvs_contains(old_kv, k));
            }
        }
    }
}

} // verus!
