//! Core identifier types, and a generator for unique, monotone IDs for
//! events, messages, timers and queue insertions.

use vstd::prelude::*;

verus! {

/// A unique identifier for a node. Initially spawned nodes have contiguous
/// IDs from 0 to N-1.
pub type NodeId = u32;

/// A unique identifier for a directed link between two nodes.
pub type LinkId = u64;

/// A unique identifier for a timer set by a protocol.
pub type TimerId = u64;

/// A unique identifier for a scheduled event in the master queue.
pub type EventId = u64;

/// The reserved source id for engine-injected messages.
pub const ENGINE_SRC: NodeId = 0xffff_ffff;

/// A generator for the simulation's ID families. Each counter is monotone;
/// exhausting one is a fatal engine condition, surfaced by the caller, so
/// each draw requires headroom.
pub struct IdGen {
    pub event_id: EventId,
    pub msg_id: u64,
    pub timer_id: TimerId,
    /// Tie-breaker for events scheduled at the same time.
    pub insertion_seq: u64,
}

impl IdGen {
    pub fn new() -> (g: IdGen)
        ensures
            g.event_id == 0,
            g.msg_id == 0,
            g.timer_id == 0,
            g.insertion_seq == 0,
    {
        IdGen { event_id: 0, msg_id: 0, timer_id: 0, insertion_seq: 0 }
    }

    /// True while no counter has been exhausted; every public operation of
    /// the kernel preserves it or reports a fatal error.
    pub open spec fn ok(self) -> bool {
        self.event_id < u64::MAX && self.msg_id < u64::MAX && self.timer_id < u64::MAX
            && self.insertion_seq < u64::MAX
    }

    pub fn next_event_id(&mut self) -> (id: EventId)
        requires
            old(self).event_id < u64::MAX,
        ensures
            id == old(self).event_id,
            *final(self) == (IdGen { event_id: (old(self).event_id + 1) as u64, ..*old(self) }),
    {
        let id = self.event_id;
        self.event_id = self.event_id + 1;
        id
    }

    pub fn next_msg_id(&mut self) -> (id: u64)
        requires
            old(self).msg_id < u64::MAX,
        ensures
            id == old(self).msg_id,
            *final(self) == (IdGen { msg_id: (old(self).msg_id + 1) as u64, ..*old(self) }),
    {
        let id = self.msg_id;
        self.msg_id = self.msg_id + 1;
        id
    }

    pub fn next_timer_id(&mut self) -> (id: TimerId)
        requires
            old(self).timer_id < u64::MAX,
        ensures
            id == old(self).timer_id,
            *final(self) == (IdGen { timer_id: (old(self).timer_id + 1) as u64, ..*old(self) }),
    {
        let id = self.timer_id;
        self.timer_id = self.timer_id + 1;
        id
    }

    pub fn next_insertion_seq(&mut self) -> (id: u64)
        requires
            old(self).insertion_seq < u64::MAX,
        ensures
            id == old(self).insertion_seq,
            *final(self) == (IdGen { insertion_seq: (old(self).insertion_seq + 1) as u64, ..*old(self) }),
    {
        let id = self.insertion_seq;
        self.insertion_seq = self.insertion_seq + 1;
        id
    }
}

} // verus!
