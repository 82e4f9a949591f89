//! The protocol SDK boundary: the capability contract between the kernel
//! and any protocol. A protocol is a state machine reacting to discrete
//! callbacks; each callback receives a context handle that collects its
//! side effects (sends, timers, storage operations, visualization
//! key-values) for the kernel to apply in call order.

use vstd::prelude::*;
use crate::envelope::ProtoTag;
use crate::errors::{CodecError, StoreError};
use crate::ids::{IdGen, NodeId, TimerId};
use crate::rng::{MasterRng, Site};
use crate::store::{
    append_log_with_faults, fsync_with_faults, read_log_with_faults, LogIndex, LogRecord, MemStore,
    StoreFaultKind, StoreFaultModel,
};
use crate::telemetry::KvPair;
use crate::time::{skew_adjust, time_add, time_add_exec, SimTime};
use crate::timers::{id_in, TimerWheel};

verus! {

/// A fault notification as a protocol sees it.
#[derive(Debug, Clone)]
pub enum FaultEvent {
    NodeCrashed,
    NodeRecovered,
    Partitioned { peers: Vec<NodeId> },
    PartitionHealed,
    ClockSkewed { skew_ns: i128 },
    StoreFaulted { kind: StoreFaultKind },
    ByzantineEnabled(bool),
}

/// A message a protocol asked to send: the kernel assigns the message id
/// and runs the link fault model afterwards, in request order.
#[derive(Debug)]
pub struct SendReq {
    pub dst: NodeId,
    pub proto_tag: ProtoTag,
    pub payload: Vec<u8>,
}

/// A timer a protocol set: its id is fixed at the call, the kernel queues
/// the firing event afterwards, in request order.
#[derive(Debug, Clone, Copy, PartialEq, Eq, Structural)]
pub struct TimerReq {
    pub timer_id: TimerId,
    pub fire_at: SimTime,
}

/// The capability handle bound to one protocol callback. It owns the
/// node's timer book and store and the master RNG for the duration of the
/// callback; the kernel takes them back, along with the collected
/// effects, when the callback returns. It is never kept across callbacks.
pub struct Ctx {
    pub node_id: NodeId,
    pub proto_tag: ProtoTag,
    /// The kernel clock, stationary during the callback.
    pub clock: SimTime,
    /// This node's signed clock skew.
    pub skew: i128,
    pub peers: Vec<NodeId>,
    pub store_faults: StoreFaultModel,
    pub timers: TimerWheel,
    pub store: MemStore,
    pub rng: MasterRng,
    pub ids: IdGen,
    pub outbox: Vec<SendReq>,
    pub timer_reqs: Vec<TimerReq>,
    pub kv_out: Vec<KvPair>,
    /// Raised when an id family is exhausted: a fatal engine condition
    /// the kernel surfaces after the callback.
    pub failed: bool,
}

impl Ctx {
    /// Well-formed: the timer book is sound and every registered id was
    /// allocated by the generator.
    pub open spec fn wf(self) -> bool {
        &&& self.timers.wf()
        &&& forall|id: TimerId| id_in(self.timers.active@, id) ==> id < self.ids.timer_id
        &&& self.store.wf()
    }

    /// What a callback may not touch: identity, clock and configuration
    /// stay fixed, effect lists only grow, and every timer request made
    /// during the callback fires no earlier than the callback's clock.
    pub open spec fn frame(pre: Ctx, post: Ctx) -> bool {
        &&& post.node_id == pre.node_id
        &&& post.proto_tag == pre.proto_tag
        &&& post.clock == pre.clock
        &&& post.skew == pre.skew
        &&& post.peers == pre.peers
        &&& post.store_faults == pre.store_faults
        &&& pre.failed ==> post.failed
        &&& post.ids.timer_id >= pre.ids.timer_id
        &&& post.ids.event_id >= pre.ids.event_id
        &&& post.ids.msg_id >= pre.ids.msg_id
        &&& post.ids.insertion_seq >= pre.ids.insertion_seq
        &&& post.timer_reqs@.len() >= pre.timer_reqs@.len()
        &&& forall|i: int|
            0 <= i < pre.timer_reqs@.len() ==> post.timer_reqs@[i] == pre.timer_reqs@[i]
        &&& forall|i: int|
            pre.timer_reqs@.len() <= i < post.timer_reqs@.len() ==> (
            #[trigger] post.timer_reqs@[i]).fire_at >= pre.clock
    }

    /// The frame relation composes across successive callback phases.
    pub proof fn lemma_frame_trans(a: Ctx, b: Ctx, c: Ctx)
        requires
            Ctx::frame(a, b),
            Ctx::frame(b, c),
        ensures
            Ctx::frame(a, c),
    {
    }

    /// Asks the kernel to send raw bytes to one destination.
    pub fn send_raw(&mut self, dst: NodeId, proto_tag: ProtoTag, payload: Vec<u8>)
        ensures
            *final(self) == (Ctx {
                outbox: final(self).outbox,
                ..*old(self)
            }),
            final(self).outbox@.len() == old(self).outbox@.len() + 1,
            final(self).outbox@.drop_last() == old(self).outbox@,
            final(self).outbox@.last().dst == dst,
            final(self).outbox@.last().proto_tag == proto_tag,
            final(self).outbox@.last().payload@ == payload@,
    {
        self.outbox.push(SendReq { dst, proto_tag, payload });
        proof {
            assert(self.outbox@.drop_last() =~= old(self).outbox@);
        }
    }

    /// Asks the kernel to send the same bytes to every peer but the node
    /// itself.
    pub fn broadcast_raw(&mut self, proto_tag: ProtoTag, payload: &Vec<u8>)
        ensures
            *final(self) == (Ctx {
                outbox: final(self).outbox,
                ..*old(self)
            }),
            final(self).outbox@.len() <= old(self).outbox@.len() + old(self).peers@.len(),
            final(self).outbox@.len() >= old(self).outbox@.len(),
            final(self).outbox@.subrange(0, old(self).outbox@.len() as int) == old(self).outbox@,
            forall|i: int|
                old(self).outbox@.len() <= i < final(self).outbox@.len() ==> {
                    let req = #[trigger] final(self).outbox@[i];
                    &&& old(self).peers@.contains(req.dst)
                    &&& req.dst != old(self).node_id
                    &&& req.proto_tag == proto_tag
                    &&& req.payload@ == payload@
                },
            forall|p: NodeId|
                old(self).peers@.contains(p) && p != old(self).node_id ==> exists|i: int|
                    old(self).outbox@.len() <= i < final(self).outbox@.len() && (
                    #[trigger] final(self).outbox@[i]).dst == p,
    {
        let n = self.peers.len();
        let ghost base = self.outbox@;
        let mut i: usize = 0;
        while i < n
            invariant
                n == self.peers@.len(),
                0 <= i <= n,
                *self == (Ctx { outbox: self.outbox, ..*old(self) }),
                self.outbox@.len() >= base.len(),
                self.outbox@.len() <= base.len() + i,
                base == old(self).outbox@,
                self.outbox@.subrange(0, base.len() as int) == base,
                forall|m: int|
                    base.len() <= m < self.outbox@.len() ==> {
                        let req = #[trigger] self.outbox@[m];
                        &&& old(self).peers@.contains(req.dst)
                        &&& req.dst != old(self).node_id
                        &&& req.proto_tag == proto_tag
                        &&& req.payload@ == payload@
                    },
                forall|j: int|
                    0 <= j < i && old(self).peers@[j] != old(self).node_id ==> exists|m: int|
                        base.len() <= m < self.outbox@.len() && (#[trigger] self.outbox@[m]).dst
                            == old(self).peers@[j],
            decreases n - i,
        {
            let dst = self.peers[i];
            if dst != self.node_id {
                let ghost before = self.outbox@;
                self.outbox.push(
                    SendReq { dst, proto_tag, payload: crate::store::copy_bytes(payload) },
                );
                proof {
                    assert(self.outbox@.subrange(0, base.len() as int) =~= before.subrange(
                        0,
                        base.len() as int,
                    ));
                    assert(self.outbox@[before.len() as int].dst == dst);
                    assert forall|j: int|
                        0 <= j < i + 1 && old(self).peers@[j] != old(self).node_id implies exists|
                        m: int,
                    |
                        base.len() <= m < self.outbox@.len() && (#[trigger] self.outbox@[m]).dst
                            == old(self).peers@[j] by {
                        if j < i {
                            let m = choose|m: int|
                                base.len() <= m < before.len() && (#[trigger] before[m]).dst == old(
                                    self,
                                ).peers@[j];
                            assert(self.outbox@[m].dst == old(self).peers@[j]);
                        } else {
                            assert(self.outbox@[before.len() as int].dst == old(self).peers@[j]);
                        }
                    }
                }
            }
            i = i + 1;
        }
        proof {
            assert forall|p: NodeId|
                old(self).peers@.contains(p) && p != old(self).node_id implies exists|m: int|
                old(self).outbox@.len() <= m < self.outbox@.len() && (#[trigger] self.outbox@[
                m]).dst == p by {
                let j = choose|j: int| 0 <= j < old(self).peers@.len() && old(self).peers@[j] == p;
            }
        }
    }

    /// Sets a timer to fire `after` nanoseconds from now (kernel time,
    /// saturating at the end of representable time) and returns its id.
    /// On id exhaustion the context is marked failed and a dead id is
    /// returned.
    pub fn set_timer(&mut self, after: SimTime) -> (t: TimerId)
        requires
            old(self).wf(),
        ensures
            final(self).wf(),
            Ctx::frame(*old(self), *final(self)),
            final(self).outbox == old(self).outbox,
            final(self).kv_out == old(self).kv_out,
            final(self).store == old(self).store,
            final(self).rng == old(self).rng,
            !old(self).ids.ok() ==> final(self).failed,
            old(self).ids.ok() ==> {
                &&& !final(self).failed == !old(self).failed
                &&& t == old(self).ids.timer_id
                &&& final(self).timers.live(t)
                &&& forall|id: TimerId|
                    id != t ==> final(self).timers.live(id) == old(self).timers.live(id)
                &&& final(self).timer_reqs@ == old(self).timer_reqs@.push(
                    TimerReq { timer_id: t, fire_at: time_add(old(self).clock, after) },
                )
            },
    {
        if self.ids.timer_id == u64::MAX || self.ids.event_id == u64::MAX || self.ids.msg_id
            == u64::MAX || self.ids.insertion_seq == u64::MAX {
            self.failed = true;
            return u64::MAX;
        }
        let t = self.ids.next_timer_id();
        let fire_at = time_add_exec(self.clock, after);
        proof {
            assert(!id_in(self.timers.active@, t)) by {
                if id_in(self.timers.active@, t) {
                    assert(t < old(self).ids.timer_id);
                }
            }
        }
        let ghost before_active = self.timers.active@;
        self.timers.add_timer(t);
        proof {
            assert forall|id: TimerId|
                id_in(self.timers.active@, id) implies id < self.ids.timer_id by {
                let j = choose|j: int|
                    0 <= j < self.timers.active@.len() && self.timers.active@[j] == id;
                if j < before_active.len() {
                    assert(id_in(before_active, id));
                }
            }
        }
        self.timer_reqs.push(TimerReq { timer_id: t, fire_at });
        t
    }

    /// Cancels a pending timer: true exactly when the id was still
    /// active. After a true return the protocol never receives the
    /// timer's firing.
    pub fn cancel_timer(&mut self, timer_id: TimerId) -> (r: bool)
        requires
            old(self).wf(),
        ensures
            final(self).wf(),
            Ctx::frame(*old(self), *final(self)),
            final(self).outbox == old(self).outbox,
            final(self).kv_out == old(self).kv_out,
            final(self).store == old(self).store,
            final(self).rng == old(self).rng,
            final(self).ids == old(self).ids,
            final(self).timer_reqs == old(self).timer_reqs,
            final(self).failed == old(self).failed,
            r == id_in(old(self).timers.active@, timer_id),
            !final(self).timers.live(timer_id),
            forall|id: TimerId|
                id != timer_id ==> final(self).timers.live(id) == old(self).timers.live(id),
    {
        self.timers.cancel_timer(timer_id)
    }

    /// The node's view of the current time: the kernel clock shifted by
    /// this node's skew.
    pub fn now(&self) -> (t: SimTime)
        ensures
            t == skew_adjust(self.clock, self.skew),
    {
        crate::time::skew_adjust_exec(self.clock, self.skew)
    }

    /// The id of the node the callback runs on.
    pub fn node_id(&self) -> (n: NodeId)
        ensures
            n == self.node_id,
    {
        self.node_id
    }

    /// One draw from the master RNG, bound to this node's site.
    pub fn rng_u64(&mut self) -> (v: u64)
        ensures
            *final(self) == (Ctx { rng: final(self).rng, ..*old(self) }),
            final(self).rng.recorder.seed == old(self).rng.recorder.seed,
            final(self).rng.recorder.counts() == crate::rng::spec_bump(
                old(self).rng.recorder.counts(),
                Site::ProtoNode(old(self).node_id).spec_code(),
            ),
    {
        self.rng.draw(Site::ProtoNode(self.node_id))
    }

    /// Appends a record to this node's log through the fault layer.
    /// Without injected write faults the append succeeds with the next
    /// contiguous index; `NoSpace` only at the end of the index range.
    pub fn append_log(&mut self, rec: LogRecord) -> (r: Result<LogIndex, StoreError>)
        requires
            old(self).wf(),
        ensures
            final(self).wf(),
            Ctx::frame(*old(self), *final(self)),
            final(self).outbox == old(self).outbox,
            final(self).timers == old(self).timers,
            final(self).timer_reqs == old(self).timer_reqs,
            final(self).kv_out == old(self).kv_out,
            final(self).ids == old(self).ids,
            final(self).failed == old(self).failed,
            match r {
                Ok(idx) => final(self).store.log@ == old(self).store.log@.push(rec) && idx == old(
                    self,
                ).store.log@.len() && final(self).store.kv == old(self).store.kv,
                Err(e) => final(self).store == old(self).store && (e == StoreError::FaultInjected
                    && (old(self).store_faults.write_error.ppm > 0
                    || old(self).store_faults.torn_write.ppm > 0) || e == StoreError::NoSpace
                    && old(self).store.log@.len() >= u64::MAX),
            },
            old(self).store_faults.spec_is_none() && old(self).store.log@.len() < u64::MAX ==> r
                == Ok::<LogIndex, StoreError>(old(self).store.log@.len() as u64),
            old(self).store_faults.write_error.ppm == 0 && old(self).store_faults.torn_write.ppm
                == 0 ==> final(self).rng == old(self).rng,
    {
        if self.store.log.len() as u64 == u64::MAX && self.store.log.len() == usize::MAX {
            return Err(StoreError::NoSpace);
        }
        proof {
            assert(self.store.log@.len() < u64::MAX);
        }
        append_log_with_faults(
            &mut self.store,
            &self.store_faults,
            &mut self.rng,
            self.node_id,
            rec,
        )
    }

    /// Reads a record from this node's log through the fault layer.
    /// Without injected read faults the record at any held index comes
    /// back.
    pub fn read_log(&mut self, idx: LogIndex) -> (r: Result<Option<LogRecord>, StoreError>)
        requires
            old(self).wf(),
        ensures
            final(self).wf(),
            Ctx::frame(*old(self), *final(self)),
            final(self).outbox == old(self).outbox,
            final(self).timers == old(self).timers,
            final(self).timer_reqs == old(self).timer_reqs,
            final(self).kv_out == old(self).kv_out,
            final(self).ids == old(self).ids,
            final(self).failed == old(self).failed,
            final(self).store == old(self).store,
            match r {
                Ok(o) => match o {
                    Some(rec) => idx < old(self).store.log@.len() && rec.term == old(
                        self,
                    ).store.log@[idx as int].term && rec.data@ == old(
                        self,
                    ).store.log@[idx as int].data@,
                    None => idx >= old(self).store.log@.len() || old(
                        self,
                    ).store_faults.stale_read.ppm > 0,
                },
                Err(e) => e == StoreError::FaultInjected && old(
                    self,
                ).store_faults.read_error.ppm > 0,
            },
            old(self).store_faults.spec_is_none() && idx < old(self).store.log@.len() ==> (match r {
                Ok(o) => o matches Some(rec) && rec.term == old(self).store.log@[idx as int].term
                    && rec.data@ == old(self).store.log@[idx as int].data@,
                Err(_) => false,
            }),
            old(self).store_faults.read_error.ppm == 0 && old(self).store_faults.stale_read.ppm
                == 0 ==> final(self).rng == old(self).rng,
    {
        read_log_with_faults(&self.store, &self.store_faults, &mut self.rng, self.node_id, idx)
    }

    /// Stores a key-value pair on this node.
    pub fn kv_put(&mut self, k: Vec<u8>, v: Vec<u8>) -> (r: Result<(), StoreError>)
        requires
            old(self).wf(),
        ensures
            final(self).wf(),
            Ctx::frame(*old(self), *final(self)),
            final(self).outbox == old(self).outbox,
            final(self).timers == old(self).timers,
            final(self).timer_reqs == old(self).timer_reqs,
            final(self).kv_out == old(self).kv_out,
            final(self).ids == old(self).ids,
            final(self).rng == old(self).rng,
            final(self).failed == old(self).failed,
            r == Ok::<(), StoreError>(()),
            final(self).store.log == old(self).store.log,
            crate::store::kv_contains(final(self).store.kv@, k@),
            crate::store::kv_value(final(self).store.kv@, k@) == v@,
            forall|k2: Seq<u8>|
                k2 != k@ ==> crate::store::kv_contains(final(self).store.kv@, k2)
                    == crate::store::kv_contains(old(self).store.kv@, k2),
            forall|k2: Seq<u8>|
                k2 != k@ && crate::store::kv_contains(old(self).store.kv@, k2)
                    ==> crate::store::kv_value(final(self).store.kv@, k2)
                    == crate::store::kv_value(old(self).store.kv@, k2),
    {
        self.store.kv_put(k, v)
    }

    /// Looks a key up on this node.
    pub fn kv_get(&mut self, k: &Vec<u8>) -> (r: Result<Option<Vec<u8>>, StoreError>)
        requires
            old(self).wf(),
        ensures
            *final(self) == *old(self),
            match r {
                Ok(o) => match o {
                    Some(v) => crate::store::kv_contains(old(self).store.kv@, k@) && v@
                        == crate::store::kv_value(old(self).store.kv@, k@),
                    None => !crate::store::kv_contains(old(self).store.kv@, k@),
                },
                Err(_) => false,
            },
    {
        self.store.kv_get(k)
    }

    /// Synchronizes this node's store through the fault layer. Without an
    /// injected fsync fault it succeeds.
    pub fn fsync(&mut self) -> (r: Result<(), StoreError>)
        requires
            old(self).wf(),
        ensures
            final(self).wf(),
            Ctx::frame(*old(self), *final(self)),
            final(self).outbox == old(self).outbox,
            final(self).timers == old(self).timers,
            final(self).timer_reqs == old(self).timer_reqs,
            final(self).kv_out == old(self).kv_out,
            final(self).ids == old(self).ids,
            final(self).failed == old(self).failed,
            final(self).store == old(self).store,
            match r {
                Ok(u) => true,
                Err(e) => e == StoreError::FaultInjected && old(
                    self,
                ).store_faults.fsync_fail.ppm > 0,
            },
            old(self).store_faults.spec_is_none() ==> r == Ok::<(), StoreError>(()),
            old(self).store_faults.fsync_fail.ppm == 0 ==> final(self).rng == old(self).rng,
    {
        fsync_with_faults(&mut self.store, &self.store_faults, &mut self.rng, self.node_id)
    }

    /// Attaches a visualization key-value to this node.
    pub fn log_kv(&mut self, key: String, value: String)
        ensures
            *final(self) == (Ctx { kv_out: final(self).kv_out, ..*old(self) }),
            final(self).kv_out@.len() == old(self).kv_out@.len() + 1,
            final(self).kv_out@.drop_last() == old(self).kv_out@,
            final(self).kv_out@.last().key@ == key@,
            final(self).kv_out@.last().value@ == value@,
    {
        self.kv_out.push(KvPair { key, value });
        proof {
            assert(self.kv_out@.drop_last() =~= old(self).kv_out@);
        }
    }
}

/// The contract every protocol implements. Callbacks run to completion,
/// never suspend, and interact with the world only through the context;
/// each preserves the context's identity and configuration.
pub trait Protocol: Sized {
    /// The protocol's stable name.
    fn name(&self) -> &'static str;

    /// The namespace tag of this protocol's messages.
    fn proto_tag(&self) -> ProtoTag;

    /// Called once when the node starts, and again after each restart.
    fn init(&mut self, ctx: &mut Ctx)
        requires
            old(ctx).wf(),
        ensures
            final(ctx).wf(),
            Ctx::frame(*old(ctx), *final(ctx)),
    ;

    /// Called for each message delivered to this node's tag.
    fn on_message(&mut self, ctx: &mut Ctx, src: NodeId, bytes: &Vec<u8>) -> (r: Result<
        (),
        CodecError,
    >)
        requires
            old(ctx).wf(),
        ensures
            final(ctx).wf(),
            Ctx::frame(*old(ctx), *final(ctx)),
    ;

    /// Called when a live timer of this node fires.
    fn on_timer(&mut self, ctx: &mut Ctx, timer: TimerId)
        requires
            old(ctx).wf(),
        ensures
            final(ctx).wf(),
            Ctx::frame(*old(ctx), *final(ctx)),
    ;

    /// Called when the simulator injects a fault into this node.
    fn on_fault(&mut self, ctx: &mut Ctx, fault: FaultEvent)
        requires
            old(ctx).wf(),
        ensures
            final(ctx).wf(),
            Ctx::frame(*old(ctx), *final(ctx)),
    ;
}

} // verus!

verus! {

/// The closed set of protocols the simulator can host. The kernel
/// dispatches through this enum; each variant's behaviour is its
/// `Protocol` implementation.
pub enum ProtoInstance {
    RaftLite(crate::raft_lite::RaftLite),
    PrimaryBackup(crate::primary_backup::PrimaryBackup),
    Echo(crate::echo::EchoProto),
}

/// The transition one delivered message causes in the hosted protocol,
/// as far as each protocol's own contract pins it down: the protocol
/// never changes kind, and an echo node answers exactly the messages its
/// rules say it answers — one reply to the sender for a greeting, nothing
/// for anything else. `sent` is the sequence of sends the callback asked
/// for.
pub open spec fn proto_message_step(
    pre: ProtoInstance,
    post: ProtoInstance,
    src: NodeId,
    bytes: Seq<u8>,
    sent: Seq<SendReq>,
) -> bool {
    &&& (pre is RaftLite <==> post is RaftLite)
    &&& (pre is PrimaryBackup <==> post is PrimaryBackup)
    &&& (pre is Echo <==> post is Echo)
    &&& (pre matches ProtoInstance::Echo(_) ==> {
        &&& (crate::echo::spec_decode_echo(bytes) == Some(crate::echo::EchoMessage::Ping)
            ==> sent.len() == 1 && sent[0].dst == src && sent[0].payload@
            == crate::echo::spec_encode_echo(crate::echo::EchoMessage::Pong))
        &&& (crate::echo::spec_decode_echo(bytes) != Some(crate::echo::EchoMessage::Ping)
            ==> sent.len() == 0 && post == pre)
    })
}

/// What running a protocol's start-up callback leaves behind, as far as
/// each protocol pins it down: a raft node is a follower again with a
/// running election timer; an echo node carries no state and is
/// unchanged; the hosted protocol never changes kind.
pub open spec fn proto_reinitialized(pre: ProtoInstance, post: ProtoInstance) -> bool {
    &&& (pre matches ProtoInstance::RaftLite(_) ==> (post matches ProtoInstance::RaftLite(r)
        && r.state.role == crate::raft_lite::Role::Follower && r.election_timer is Some))
    &&& (pre matches ProtoInstance::PrimaryBackup(_) ==> post is PrimaryBackup)
    &&& (pre matches ProtoInstance::Echo(_) ==> post == pre)
}

impl ProtoInstance {
    /// The instance a registry tag denotes, freshly initialized.
    pub fn from_tag(tag: ProtoTag) -> (r: Option<ProtoInstance>)
        ensures
            (tag.0 == crate::raft_lite::RAFT_TAG || tag.0 == crate::primary_backup::PB_TAG
                || tag.0 == crate::echo::ECHO_TAG) == (r is Some),
    {
        if tag.0 == crate::raft_lite::RAFT_TAG {
            Some(ProtoInstance::RaftLite(crate::raft_lite::RaftLite::new()))
        } else if tag.0 == crate::primary_backup::PB_TAG {
            Some(ProtoInstance::PrimaryBackup(crate::primary_backup::PrimaryBackup::new()))
        } else if tag.0 == crate::echo::ECHO_TAG {
            Some(ProtoInstance::Echo(crate::echo::EchoProto::new()))
        } else {
            None
        }
    }

    /// The protocol's stable name.
    pub fn name(&self) -> &'static str {
        match self {
            ProtoInstance::RaftLite(p) => p.name(),
            ProtoInstance::PrimaryBackup(p) => p.name(),
            ProtoInstance::Echo(p) => p.name(),
        }
    }

    /// The namespace tag of this protocol's messages.
    pub fn proto_tag(&self) -> ProtoTag {
        match self {
            ProtoInstance::RaftLite(p) => p.proto_tag(),
            ProtoInstance::PrimaryBackup(p) => p.proto_tag(),
            ProtoInstance::Echo(p) => p.proto_tag(),
        }
    }

    /// Forwards `init` to the hosted protocol.
    pub fn init(&mut self, ctx: &mut Ctx)
        requires
            old(ctx).wf(),
        ensures
            final(ctx).wf(),
            Ctx::frame(*old(ctx), *final(ctx)),
            proto_reinitialized(*old(self), *final(self)),
    {
        match self {
            ProtoInstance::RaftLite(p) => p.init(ctx),
            ProtoInstance::PrimaryBackup(p) => p.init(ctx),
            ProtoInstance::Echo(p) => p.init(ctx),
        }
    }

    /// Forwards a delivered message to the hosted protocol.
    pub fn on_message(&mut self, ctx: &mut Ctx, src: NodeId, bytes: &Vec<u8>) -> (r: Result<
        (),
        CodecError,
    >)
        requires
            old(ctx).wf(),
        ensures
            final(ctx).wf(),
            Ctx::frame(*old(ctx), *final(ctx)),
            proto_message_step(
                *old(self),
                *final(self),
                src,
                bytes@,
                final(ctx).outbox@.skip(old(ctx).outbox@.len() as int),
            ),
    {
        match self {
            ProtoInstance::RaftLite(p) => p.on_message(ctx, src, bytes),
            ProtoInstance::PrimaryBackup(p) => p.on_message(ctx, src, bytes),
            ProtoInstance::Echo(p) => {
                let r = p.on_message(ctx, src, bytes);
                proof {
                    let base = old(ctx).outbox@.len() as int;
                    if crate::echo::spec_decode_echo(bytes@) == Some(
                        crate::echo::EchoMessage::Ping,
                    ) {
                        assert(ctx.outbox@.skip(base) =~= seq![ctx.outbox@.last()]);
                    } else {
                        assert(ctx.outbox@.skip(base) =~= Seq::<SendReq>::empty());
                    }
                }
                r
            },
        }
    }

    /// Forwards a live timer firing to the hosted protocol.
    pub fn on_timer(&mut self, ctx: &mut Ctx, timer: TimerId)
        requires
            old(ctx).wf(),
        ensures
            final(ctx).wf(),
            Ctx::frame(*old(ctx), *final(ctx)),
    {
        match self {
            ProtoInstance::RaftLite(p) => p.on_timer(ctx, timer),
            ProtoInstance::PrimaryBackup(p) => p.on_timer(ctx, timer),
            ProtoInstance::Echo(p) => p.on_timer(ctx, timer),
        }
    }

    /// Forwards a fault notification to the hosted protocol. No hosted
    /// protocol changes its own state on a fault notification.
    pub fn on_fault(&mut self, ctx: &mut Ctx, fault: FaultEvent)
        requires
            old(ctx).wf(),
        ensures
            final(ctx).wf(),
            Ctx::frame(*old(ctx), *final(ctx)),
            *final(self) == *old(self),
    {
        match self {
            ProtoInstance::RaftLite(p) => p.on_fault(ctx, fault),
            ProtoInstance::PrimaryBackup(p) => p.on_fault(ctx, fault),
            ProtoInstance::Echo(p) => p.on_fault(ctx, fault),
        }
    }
}

} // verus!
