//! The node runtime: hosts one protocol instance, owns its timer book,
//! its storage and its fault rates, and routes inbound deliveries, timer
//! firings and faults into the protocol. A node that is down neither
//! accepts messages nor fires timers nor emits anything.

use vstd::prelude::*;
use crate::envelope::{Envelope, ProtoTag};
use crate::errors::CodecError;
use crate::events::FaultEventInternal;
use crate::ids::{IdGen, NodeId, TimerId};
use crate::proto::{Ctx, FaultEvent, ProtoInstance, SendReq, TimerReq};
use crate::rng::MasterRng;
use crate::store::{MemStore, StoreFaultModel};
use crate::telemetry::{KvPair, NodeStatus};
use crate::time::SimTime;
use crate::timers::{id_in, TimerWheel};

verus! {

/// What one protocol callback asked the kernel to do, in call order, and
/// whether the callback ran at all.
pub struct Effects {
    pub outbox: Vec<SendReq>,
    pub timer_reqs: Vec<TimerReq>,
    pub kv_out: Vec<KvPair>,
    /// Whether the event reached the protocol.
    pub delivered: bool,
    /// A deserialization failure the protocol reported; the event is
    /// still consumed.
    pub codec_error: Option<CodecError>,
    /// An id family was exhausted during the callback: fatal.
    pub failed: bool,
}

impl Effects {
    /// The empty outcome: the callback did not run or asked for nothing.
    pub open spec fn is_empty(self) -> bool {
        self.outbox@.len() == 0 && self.timer_reqs@.len() == 0 && self.kv_out@.len() == 0
            && !self.failed
    }

    fn none() -> (e: Effects)
        ensures
            e.is_empty(),
            !e.delivered,
            e.codec_error is None,
    {
        Effects {
            outbox: Vec::new(),
            timer_reqs: Vec::new(),
            kv_out: Vec::new(),
            delivered: false,
            codec_error: None,
            failed: false,
        }
    }
}

/// A single node of the simulated system.
pub struct Node {
    pub id: NodeId,
    pub status: NodeStatus,
    /// A logical skew applied to this node's view of time.
    pub clock_skew_ns: i128,
    pub peers: Vec<NodeId>,
    pub byzantine: bool,
    pub store_faults: StoreFaultModel,
    pub timers: TimerWheel,
    pub store: MemStore,
    /// The protocol logic hosted on this node.
    pub proto: ProtoInstance,
}

impl Node {
    /// Well-formed against the id generator that allocated its timers.
    pub open spec fn wf(self, ids: IdGen) -> bool {
        &&& self.timers.wf()
        &&& forall|id: TimerId| id_in(self.timers.active@, id) ==> id < ids.timer_id
        &&& self.store.wf()
    }

    pub fn new(id: NodeId, proto: ProtoInstance) -> (n: Node)
        ensures
            n.id == id,
            n.status == NodeStatus::Up,
            n.clock_skew_ns == 0,
            n.peers@.len() == 0,
            !n.byzantine,
            n.store_faults.spec_is_none(),
            n.timers.active@.len() == 0,
            n.store.log@.len() == 0,
            n.proto == proto,
            forall|ids: IdGen| n.wf(ids),
    {
        Node {
            id,
            status: NodeStatus::Up,
            clock_skew_ns: 0,
            peers: Vec::new(),
            byzantine: false,
            store_faults: StoreFaultModel::none(),
            timers: TimerWheel::new(),
            store: MemStore::new(),
            proto,
        }
    }

    /// The namespace tag of the hosted protocol.
    pub fn proto_tag(&self) -> ProtoTag {
        self.proto.proto_tag()
    }

    /// Replaces the node's peer list.
    pub fn set_peers(&mut self, peers: Vec<NodeId>)
        ensures
            *final(self) == (Node { peers: final(self).peers, ..*old(self) }),
            final(self).peers == peers,
    {
        self.peers = peers;
    }

    /// The number of live timers.
    pub fn timers_len(&self) -> (n: usize)
        requires
            self.timers.wf(),
        ensures
            n == self.timers.active@.len() - self.timers.cancelled@.len(),
    {
        self.timers.active_timers()
    }

    /// Whether byzantine behaviour is enabled on this node.
    pub fn byzantine(&self) -> (b: bool)
        ensures
            b == self.byzantine,
    {
        self.byzantine
    }

    /// The node's peer list.
    pub fn peers(&self) -> (p: &Vec<NodeId>)
        ensures
            p == self.peers,
    {
        &self.peers
    }

    /// Cancels a pending timer directly on the book.
    pub fn cancel_timer(&mut self, timer_id: TimerId) -> (r: bool)
        requires
            old(self).timers.wf(),
        ensures
            *final(self) == (Node { timers: final(self).timers, ..*old(self) }),
            final(self).timers.wf(),
            final(self).timers.active@ == old(self).timers.active@,
            r == id_in(old(self).timers.active@, timer_id),
            !final(self).timers.live(timer_id),
            forall|id: TimerId|
                id != timer_id ==> final(self).timers.live(id) == old(self).timers.live(id),
    {
        self.timers.cancel_timer(timer_id)
    }

    /// Binds a context to this node, taking its working state and the
    /// kernel's generators for the duration of one callback.
    fn begin_ctx(&mut self, rng: &mut MasterRng, ids: &mut IdGen, clock: SimTime) -> (c: Ctx)
        requires
            old(self).wf(*old(ids)),
        ensures
            c.wf(),
            c.node_id == old(self).id,
            c.clock == clock,
            c.skew == old(self).clock_skew_ns,
            c.peers@ == old(self).peers@,
            c.store_faults == old(self).store_faults,
            c.timers == old(self).timers,
            c.store == old(self).store,
            c.rng == *old(rng),
            c.ids == *old(ids),
            c.outbox@.len() == 0,
            c.timer_reqs@.len() == 0,
            c.kv_out@.len() == 0,
            !c.failed,
            *final(self) == (Node {
                timers: final(self).timers,
                store: final(self).store,
                ..*old(self)
            }),
    {
        let mut timers = TimerWheel::new();
        core::mem::swap(&mut timers, &mut self.timers);
        let mut store = MemStore::new();
        core::mem::swap(&mut store, &mut self.store);
        let mut local_rng = MasterRng::new(0);
        core::mem::swap(&mut local_rng, rng);
        let mut local_ids = IdGen::new();
        core::mem::swap(&mut local_ids, ids);
        let proto_tag = self.proto.proto_tag();
        Ctx {
            node_id: self.id,
            proto_tag,
            clock,
            skew: self.clock_skew_ns,
            peers: copy_node_ids(&self.peers),
            store_faults: self.store_faults,
            timers,
            store,
            rng: local_rng,
            ids: local_ids,
            outbox: Vec::new(),
            timer_reqs: Vec::new(),
            kv_out: Vec::new(),
            failed: false,
        }
    }

    /// Takes the working state back from a context and turns what it
    /// collected into the callback's effects.
    fn finish_ctx(
        &mut self,
        rng: &mut MasterRng,
        ids: &mut IdGen,
        ctx: Ctx,
        codec_error: Option<CodecError>,
    ) -> (e: Effects)
        requires
            ctx.wf(),
        ensures
            final(self).wf(*final(ids)),
            *final(self) == (Node {
                timers: ctx.timers,
                store: ctx.store,
                ..*old(self)
            }),
            *final(rng) == ctx.rng,
            *final(ids) == ctx.ids,
            e.outbox == ctx.outbox,
            e.timer_reqs == ctx.timer_reqs,
            e.kv_out == ctx.kv_out,
            e.failed == ctx.failed,
            e.delivered,
            e.codec_error == codec_error,
    {
        let Ctx { timers, store, rng: r2, ids: i2, outbox, timer_reqs, kv_out, failed, .. } = ctx;
        self.timers = timers;
        self.store = store;
        *rng = r2;
        *ids = i2;
        Effects { outbox, timer_reqs, kv_out, delivered: true, codec_error, failed }
    }

    /// Routes a delivered message into the protocol. A node that is not
    /// up silently consumes the message and emits nothing; the caller
    /// records the omission.
    pub fn handle_message(
        &mut self,
        rng: &mut MasterRng,
        ids: &mut IdGen,
        clock: SimTime,
        env: &Envelope,
    ) -> (e: Effects)
        requires
            old(self).wf(*old(ids)),
        ensures
            final(self).wf(*final(ids)),
            final(self).id == old(self).id,
            final(self).status == old(self).status,
            final(self).clock_skew_ns == old(self).clock_skew_ns,
            final(self).peers == old(self).peers,
            final(self).byzantine == old(self).byzantine,
            final(self).store_faults == old(self).store_faults,
            forall|i: int|
                0 <= i < e.timer_reqs@.len() ==> (#[trigger] e.timer_reqs@[i]).fire_at >= clock,
            final(ids).timer_id >= old(ids).timer_id,
            final(ids).event_id >= old(ids).event_id,
            final(ids).msg_id >= old(ids).msg_id,
            final(ids).insertion_seq >= old(ids).insertion_seq,
            e.delivered == (old(self).status == NodeStatus::Up),
            old(self).status != NodeStatus::Up ==> e.is_empty() && *final(self) == *old(self)
                && *final(rng) == *old(rng) && *final(ids) == *old(ids),
            old(self).status == NodeStatus::Up ==> crate::proto::proto_message_step(
                old(self).proto,
                final(self).proto,
                env.src,
                env.payload@,
                e.outbox@,
            ),
    {
        if !matches!(self.status, NodeStatus::Up) {
            return Effects::none();
        }
        let mut ctx = self.begin_ctx(rng, ids, clock);
        let ghost ctx0 = ctx;
        let r = self.proto.on_message(&mut ctx, env.src, &env.payload);
        proof {
            assert(ctx.outbox@.skip(ctx0.outbox@.len() as int) =~= ctx.outbox@);
        }
        let codec_error = match r {
            Ok(u) => None,
            Err(e) => Some(e),
        };
        self.finish_ctx(rng, ids, ctx, codec_error)
    }

    /// Routes a surfacing timer event into the protocol. The protocol is
    /// notified exactly when the node is up and the timer is still live;
    /// a cancelled or cleared timer is silently retired.
    pub fn handle_timer(
        &mut self,
        rng: &mut MasterRng,
        ids: &mut IdGen,
        clock: SimTime,
        timer_id: TimerId,
    ) -> (e: Effects)
        requires
            old(self).wf(*old(ids)),
        ensures
            final(self).wf(*final(ids)),
            final(self).id == old(self).id,
            final(self).status == old(self).status,
            final(self).clock_skew_ns == old(self).clock_skew_ns,
            final(self).peers == old(self).peers,
            final(self).byzantine == old(self).byzantine,
            final(self).store_faults == old(self).store_faults,
            forall|i: int|
                0 <= i < e.timer_reqs@.len() ==> (#[trigger] e.timer_reqs@[i]).fire_at >= clock,
            final(ids).timer_id >= old(ids).timer_id,
            final(ids).event_id >= old(ids).event_id,
            final(ids).msg_id >= old(ids).msg_id,
            final(ids).insertion_seq >= old(ids).insertion_seq,
            e.delivered == (old(self).status == NodeStatus::Up && old(self).timers.live(timer_id)),
            old(self).status != NodeStatus::Up ==> e.is_empty() && *final(self) == *old(self)
                && *final(rng) == *old(rng) && *final(ids) == *old(ids),
            old(self).status == NodeStatus::Up && !old(self).timers.live(timer_id) ==> e.is_empty()
                && *final(rng) == *old(rng) && *final(ids) == *old(ids),
    {
        if !matches!(self.status, NodeStatus::Up) {
            return Effects::none();
        }
        let live = self.timers.fire_timer(timer_id);
        proof {
            assert forall|id: TimerId|
                id_in(self.timers.active@, id) implies id < ids.timer_id by {
                if id != timer_id {
                    assert(id_in(old(self).timers.active@, id));
                }
            }
        }
        if !live {
            return Effects::none();
        }
        let mut ctx = self.begin_ctx(rng, ids, clock);
        self.proto.on_timer(&mut ctx, timer_id);
        self.finish_ctx(rng, ids, ctx, None)
    }

    /// Runs the protocol's start-up callback.
    pub fn init(&mut self, rng: &mut MasterRng, ids: &mut IdGen, clock: SimTime) -> (e: Effects)
        requires
            old(self).wf(*old(ids)),
        ensures
            final(self).wf(*final(ids)),
            crate::proto::proto_reinitialized(old(self).proto, final(self).proto),
            final(self).id == old(self).id,
            final(self).status == old(self).status,
            final(self).clock_skew_ns == old(self).clock_skew_ns,
            final(self).peers == old(self).peers,
            final(self).byzantine == old(self).byzantine,
            final(self).store_faults == old(self).store_faults,
            forall|i: int|
                0 <= i < e.timer_reqs@.len() ==> (#[trigger] e.timer_reqs@[i]).fire_at >= clock,
            final(ids).timer_id >= old(ids).timer_id,
            final(ids).event_id >= old(ids).event_id,
            final(ids).msg_id >= old(ids).msg_id,
            final(ids).insertion_seq >= old(ids).insertion_seq,
    {
        let mut ctx = self.begin_ctx(rng, ids, clock);
        self.proto.init(&mut ctx);
        self.finish_ctx(rng, ids, ctx, None)
    }

    /// Applies a node-level fault, changing the node's state and
    /// notifying the protocol. A crash silences the node: its timers are
    /// dropped and nothing it asked for during the notification is sent.
    /// A restart re-initializes the protocol.
    pub fn apply_fault(
        &mut self,
        rng: &mut MasterRng,
        ids: &mut IdGen,
        clock: SimTime,
        fault: &FaultEventInternal,
    ) -> (e: Effects)
        requires
            old(self).wf(*old(ids)),
        ensures
            final(self).wf(*final(ids)),
            final(self).id == old(self).id,
            final(self).peers == old(self).peers,
            final(ids).timer_id >= old(ids).timer_id,
            final(ids).event_id >= old(ids).event_id,
            final(ids).msg_id >= old(ids).msg_id,
            final(ids).insertion_seq >= old(ids).insertion_seq,
            forall|i: int|
                0 <= i < e.timer_reqs@.len() ==> (#[trigger] e.timer_reqs@[i]).fire_at >= clock,
            match fault {
                FaultEventInternal::Crash { .. } => {
                    &&& final(self).status == NodeStatus::Down
                    &&& forall|id: TimerId| !final(self).timers.live(id)
                    &&& e.outbox@.len() == 0
                    &&& e.timer_reqs@.len() == 0
                },
                FaultEventInternal::Restart { .. } => final(self).status == NodeStatus::Up
                    && crate::proto::proto_reinitialized(old(self).proto, final(self).proto),
                FaultEventInternal::ClockSkew { node_id: _, skew_ns } => final(self).clock_skew_ns
                    == skew_ns && final(self).status == old(self).status,
                FaultEventInternal::StoreFault { node_id: _, kind, rate } => final(self).store_faults
                    == old(self).store_faults.spec_with_rate(*kind, *rate)
                    && final(self).status == old(self).status,
                FaultEventInternal::ByzantineFlip { node_id: _, enabled } => final(self).byzantine
                    == enabled && final(self).status == old(self).status,
                _ => *final(self) == *old(self) && e.is_empty(),
            },
    {
        match fault {
            FaultEventInternal::Crash { .. } => {
                self.status = NodeStatus::Down;
                self.timers.clear();
                let mut ctx = self.begin_ctx(rng, ids, clock);
                self.proto.on_fault(&mut ctx, FaultEvent::NodeCrashed);
                // A down node emits nothing: discard what the callback
                // asked to send or schedule.
                ctx.outbox = Vec::new();
                ctx.timer_reqs = Vec::new();
                // Timers set during the notification would outlive the
                // crash; drop them too.
                ctx.timers.clear();
                self.finish_ctx(rng, ids, ctx, None)
            },
            FaultEventInternal::Restart { .. } => {
                self.status = NodeStatus::Up;
                let mut ctx = self.begin_ctx(rng, ids, clock);
                self.proto.init(&mut ctx);
                self.proto.on_fault(&mut ctx, FaultEvent::NodeRecovered);
                self.finish_ctx(rng, ids, ctx, None)
            },
            FaultEventInternal::ClockSkew { node_id: _, skew_ns } => {
                self.clock_skew_ns = *skew_ns;
                let mut ctx = self.begin_ctx(rng, ids, clock);
                self.proto.on_fault(&mut ctx, FaultEvent::ClockSkewed { skew_ns: *skew_ns });
                self.finish_ctx(rng, ids, ctx, None)
            },
            FaultEventInternal::StoreFault { node_id: _, kind, rate } => {
                self.store_faults = self.store_faults.with_rate(*kind, *rate);
                let mut ctx = self.begin_ctx(rng, ids, clock);
                self.proto.on_fault(&mut ctx, FaultEvent::StoreFaulted { kind: *kind });
                self.finish_ctx(rng, ids, ctx, None)
            },
            FaultEventInternal::ByzantineFlip { node_id: _, enabled } => {
                self.byzantine = *enabled;
                let mut ctx = self.begin_ctx(rng, ids, clock);
                self.proto.on_fault(&mut ctx, FaultEvent::ByzantineEnabled(*enabled));
                self.finish_ctx(rng, ids, ctx, None)
            },
            _ => Effects::none(),
        }
    }
}

/// A copy of a list of node ids.
pub fn copy_node_ids(v: &Vec<NodeId>) -> (r: Vec<NodeId>)
    ensures
        r@ == v@,
{
    let mut r: Vec<NodeId> = Vec::new();
    let n = v.len();
    let mut i: usize = 0;
    while i < n
        invariant
            n == v.len(),
            0 <= i <= n,
            r@ == v@.subrange(0, i as int),
        decreases n - i,
    {
        r.push(v[i]);
        proof {
            assert(r@ =~= v@.subrange(0, i + 1));
        }
        i = i + 1;
    }
    proof {
        assert(r@ =~= v@);
    }
    r
}

} // verus!
