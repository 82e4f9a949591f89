//! The core `Event` enum and the `Queued` wrapper that gives an event its
//! place in the total order of the master queue: by firing time, then by
//! insertion sequence, then by discriminant.

use vstd::prelude::*;
use crate::envelope::{Envelope, ProtoTag};
use crate::ids::{EventId, LinkId, NodeId, TimerId};
use crate::prob::{Bernoulli, DelaySpec};
use crate::store::StoreFaultKind;
use crate::time::SimTime;

verus! {

/// The category-level tie-breaker for events queued at the same time with
/// the same insertion sequence: `(kind_priority, source_node)`. Faults come
/// first (0), then timers (1), then deliveries (2); interface snapshot
/// ticks come last (255).
#[derive(Debug, Clone, Copy, PartialEq, Eq, Structural)]
pub struct EventDiscriminant(pub u8, pub NodeId);

impl EventDiscriminant {
    pub fn new(kind: u8, node: NodeId) -> (d: EventDiscriminant)
        ensures
            d == EventDiscriminant(kind, node),
    {
        EventDiscriminant(kind, node)
    }

    /// Faults have the highest priority at a given time.
    pub fn fault() -> (d: EventDiscriminant)
        ensures
            d == EventDiscriminant(0u8, 0xffff_ffffu32),
    {
        EventDiscriminant(0, 0xffff_ffff)
    }

    pub fn timer(src: NodeId) -> (d: EventDiscriminant)
        ensures
            d == EventDiscriminant(1u8, src),
    {
        EventDiscriminant(1, src)
    }

    pub fn delivery(src: NodeId) -> (d: EventDiscriminant)
        ensures
            d == EventDiscriminant(2u8, src),
    {
        EventDiscriminant(2, src)
    }

    /// Snapshot ticks have the lowest priority.
    pub fn ui() -> (d: EventDiscriminant)
        ensures
            d == EventDiscriminant(255u8, 0xffff_ffffu32),
    {
        EventDiscriminant(255, 0xffff_ffff)
    }

    /// Strict lexicographic order on `(kind_priority, source_node)`.
    pub open spec fn spec_lt(self, other: EventDiscriminant) -> bool {
        self.0 < other.0 || (self.0 == other.0 && self.1 < other.1)
    }
}

/// A change to one parameter of a link's fault model.
#[derive(Debug, Clone, Copy, PartialEq, Eq, Structural)]
pub enum LinkModelChange {
    SetDelay(DelaySpec),
    SetDrop(Bernoulli),
    SetDuplicate(Bernoulli),
    SetCorrupt(Bernoulli),
}

/// The internal representation of fault events: each maps directly to an
/// action on the engine's state.
#[derive(Debug, Clone)]
pub enum FaultEventInternal {
    Crash { node_id: NodeId, duration: SimTime },
    Restart { node_id: NodeId },
    Partition { sets: Vec<Vec<NodeId>> },
    HealPartition,
    LinkModelUpdate { link_id: LinkId, change: LinkModelChange },
    ClockSkew { node_id: NodeId, skew_ns: i128 },
    StoreFault { node_id: NodeId, kind: StoreFaultKind, rate: Bernoulli },
    ByzantineFlip { node_id: NodeId, enabled: bool },
    BroadcastBytes { payload_hex: String, proto_tag: Option<ProtoTag> },
    Custom { name: String, args: String },
}

/// Everything that can be scheduled in the simulation.
#[derive(Debug)]
pub enum Event {
    /// Deliver a network message to its destination node.
    Deliver { env: Envelope, link_id: LinkId },
    /// A timer set by a protocol has come due.
    TimerFired { node_id: NodeId, timer_id: TimerId },
    /// A fault injection from the scenario or the control surface.
    Fault(FaultEventInternal),
    /// A periodic tick that publishes a telemetry snapshot.
    UiSnapshotTick,
}

/// An event with its scheduling information: the type stored in the master
/// priority queue.
#[derive(Debug)]
pub struct Queued<T> {
    pub id: EventId,
    pub time: SimTime,
    /// A monotone sequence number: the deterministic FIFO tie-breaker for
    /// events scheduled at the same time.
    pub insert_seq: u64,
    pub discriminant: EventDiscriminant,
    pub payload: T,
}

impl<T> Queued<T> {
    pub fn new(
        id: EventId,
        time: SimTime,
        insert_seq: u64,
        discriminant: EventDiscriminant,
        payload: T,
    ) -> (q: Queued<T>)
        ensures
            q.id == id,
            q.time == time,
            q.insert_seq == insert_seq,
            q.discriminant == discriminant,
            q.payload == payload,
    {
        Queued { id, time, insert_seq, discriminant, payload }
    }

    /// The strict total order of the queue: earlier time first, then
    /// earlier insertion, then smaller discriminant. It is total on any set
    /// of events with distinct insertion sequences.
    pub open spec fn spec_before(self, other: Queued<T>) -> bool {
        self.time < other.time || (self.time == other.time && (self.insert_seq < other.insert_seq
            || (self.insert_seq == other.insert_seq && self.discriminant.spec_lt(
            other.discriminant,
        ))))
    }

    /// Compares two queued events by the queue order, matching
    /// `spec_before`.
    pub fn before(&self, other: &Queued<T>) -> (r: bool)
        ensures
            r == self.spec_before(*other),
    {
        if self.time != other.time {
            self.time < other.time
        } else if self.insert_seq != other.insert_seq {
            self.insert_seq < other.insert_seq
        } else if self.discriminant.0 != other.discriminant.0 {
            self.discriminant.0 < other.discriminant.0
        } else {
            self.discriminant.1 < other.discriminant.1
        }
    }
}

/// The queue order is a strict partial order: irreflexive and transitive,
/// and antisymmetric; on events with distinct insertion sequences at equal
/// times (as the kernel assigns them) it is moreover total, so the order in
/// which events are processed is fully determined.
pub proof fn lemma_queue_order_strict<T>(a: Queued<T>, b: Queued<T>, c: Queued<T>)
    ensures
        !a.spec_before(a),
        a.spec_before(b) && b.spec_before(c) ==> a.spec_before(c),
        a.spec_before(b) ==> !b.spec_before(a),
        a.insert_seq != b.insert_seq ==> (a.spec_before(b) || b.spec_before(a)),
{
}

} // verus!
