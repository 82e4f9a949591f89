//! The simulation kernel: the master clock, the event queue, the world,
//! the seeded RNG and the step loop. Each step pops the earliest queued
//! event, advances the clock to its firing time, and dispatches it to a
//! node or to a world-mutation handler, which may queue further events.

use vstd::prelude::*;
use crate::control::{ControlMsg, SimulationState};
use crate::envelope::Envelope;
use crate::events::{Event, EventDiscriminant, FaultEventInternal, Queued};
use crate::ids::{EventId, IdGen, NodeId, ENGINE_SRC};
use crate::net::SendOutcome;
use crate::node::{Effects, Node};
use crate::proto::TimerReq;
use crate::queue::{min_index, EventQueue};
use crate::rng::MasterRng;
use crate::store::copy_bytes;
use crate::telemetry::{
    spec_sat_add, spec_sat_inc, KvPair, LinkSnap, Metric, NodeSnap, NodeStatus, Snapshot,
    TelemetryBus,
};
use crate::time::{time_add, time_add_exec, SimTime, MAX_SIM_TIME};
use crate::world::World;

verus! {

/// How often a telemetry snapshot is taken, in milliseconds.
pub const SNAPSHOT_CADENCE_MS: u64 = 50;

/// The queue after timer requests alone were applied: everything kept,
/// one firing appended per request, in request order, at its requested
/// time with timer priority for the requesting node.
pub open spec fn timers_queued(
    post: Seq<Queued<Event>>,
    pre: Seq<Queued<Event>>,
    src: NodeId,
    reqs: Seq<TimerReq>,
) -> bool {
    &&& post.len() == pre.len() + reqs.len()
    &&& forall|k: int| 0 <= k < pre.len() ==> post[k] == pre[k]
    &&& forall|k: int|
        0 <= k < reqs.len() ==> {
            let q = #[trigger] post[pre.len() + k];
            &&& q.time == reqs[k].fire_at
            &&& q.discriminant == EventDiscriminant(1u8, src)
            &&& q.payload == (Event::TimerFired { node_id: src, timer_id: reqs[k].timer_id })
        }
}

/// What one callback's effects may add to the queue: a delivery of a
/// message the node sent now, with delivery priority and the current
/// clock as its creation time, never firing in the past; or a firing of
/// one of the node's own timers, with timer priority.
pub open spec fn effect_event_shape(q: Queued<Event>, src: NodeId, clock: SimTime) -> bool {
    ||| (q.payload matches Event::Deliver { env, link_id } && env.src == src && env.create_time
        == clock && q.discriminant == EventDiscriminant(2u8, src) && q.time >= clock)
    ||| (q.payload matches Event::TimerFired { node_id, timer_id } && node_id == src
        && q.discriminant == EventDiscriminant(1u8, src))
}

/// The queue after a snapshot tick: everything kept, exactly one new tick
/// appended at the given time with interface priority.
pub open spec fn snapshot_tick_queued(
    post: Seq<Queued<Event>>,
    pre: Seq<Queued<Event>>,
    at: SimTime,
) -> bool {
    &&& post.len() == pre.len() + 1
    &&& forall|k: int| 0 <= k < pre.len() ==> post[k] == pre[k]
    &&& post.last().time == at
    &&& post.last().discriminant == EventDiscriminant(255u8, 0xffff_ffffu32)
    &&& post.last().payload is UiSnapshotTick
}

/// The main simulation controller.
pub struct Simulation {
    /// The current simulation time; it never decreases.
    pub clock: SimTime,
    /// The priority queue of all scheduled future events.
    pub queue: EventQueue<Event>,
    /// The nodes and the network.
    pub world: World,
    /// The single source of randomness, with its audit recorder.
    pub rng: MasterRng,
    /// The generator of event, message, timer and insertion ids.
    pub id_gen: IdGen,
    /// Logs, metrics and per-node visualization state.
    pub telemetry: TelemetryBus,
    /// The execution state of the run loop.
    pub state: SimulationState,
    /// The snapshot produced by the latest snapshot tick, until an
    /// observer takes it.
    pub pending_snapshot: Option<Snapshot>,
    /// Raised when an id family is exhausted: a fatal engine condition.
    pub failed: bool,
}

impl Simulation {
    /// The kernel invariant: the world is sound against the id
    /// generator, telemetry is within bounds, and nothing in the queue
    /// fires before the current clock.
    pub open spec fn wf(self) -> bool {
        &&& self.world.wf(self.id_gen)
        &&& self.telemetry.wf()
        &&& forall|k: int|
            0 <= k < self.queue@.len() ==> (#[trigger] self.queue@[k]).time >= self.clock
    }

    /// A fresh simulation over a constructed world: clock at the epoch,
    /// an empty queue, and the RNG seeded.
    pub fn new(seed: u64, world: World) -> (s: Simulation)
        requires
            world.wf(IdGen { event_id: 0, msg_id: 0, timer_id: 0, insertion_seq: 0 }),
        ensures
            s.wf(),
            s.clock == 0,
            s.queue@.len() == 0,
            s.world == world,
            s.id_gen.ok(),
            s.state == SimulationState::Running,
            !s.failed,
            s.rng.recorder.seed == seed,
    {
        let num_nodes = world.nodes.len();
        let s = Simulation {
            clock: 0,
            queue: EventQueue::new(),
            world,
            rng: MasterRng::new(seed),
            id_gen: IdGen::new(),
            telemetry: TelemetryBus::new(num_nodes),
            state: SimulationState::Running,
            pending_snapshot: None,
            failed: false,
        };
        proof {
            assert forall|i: int|
                0 <= i < s.world.nodes@.len() implies (#[trigger] s.world.nodes@[i]).id == i
                && s.world.nodes@[i].wf(s.id_gen) by {}
        }
        s
    }

    /// The current simulation time.
    pub fn now(&self) -> (t: SimTime)
        ensures
            t == self.clock,
    {
        self.clock
    }

    /// The world state.
    pub fn world(&self) -> (w: &World)
        ensures
            w == self.world,
    {
        &self.world
    }

    /// The telemetry collector.
    pub fn telemetry(&self) -> (t: &TelemetryBus)
        ensures
            t == self.telemetry,
    {
        &self.telemetry
    }

    /// Takes the snapshot the latest snapshot tick produced, if any.
    pub fn take_snapshot(&mut self) -> (r: Option<Snapshot>)
        ensures
            *final(self) == (Simulation { pending_snapshot: None, ..*old(self) }),
            r == old(self).pending_snapshot,
    {
        let mut out: Option<Snapshot> = None;
        core::mem::swap(&mut out, &mut self.pending_snapshot);
        out
    }

    /// Schedules an event at a future time: it gets the next event id
    /// and insertion sequence and joins the queue. Never fails except on
    /// id exhaustion, which marks the simulation failed and schedules
    /// nothing.
    pub fn schedule_at(
        &mut self,
        fire_time: SimTime,
        ev: Event,
        discriminant: EventDiscriminant,
    ) -> (id: EventId)
        requires
            old(self).wf(),
            fire_time >= old(self).clock,
        ensures
            final(self).wf(),
            *final(self) == (Simulation {
                queue: final(self).queue,
                id_gen: final(self).id_gen,
                failed: final(self).failed,
                ..*old(self)
            }),
            old(self).id_gen.ok() ==> {
                &&& final(self).failed == old(self).failed
                &&& id == old(self).id_gen.event_id
                &&& final(self).queue@ == old(self).queue@.push(
                    Queued {
                        id,
                        time: fire_time,
                        insert_seq: old(self).id_gen.insertion_seq,
                        discriminant,
                        payload: ev,
                    },
                )
                &&& final(self).id_gen.event_id == old(self).id_gen.event_id + 1
                &&& final(self).id_gen.insertion_seq == old(self).id_gen.insertion_seq + 1
                &&& final(self).id_gen.msg_id == old(self).id_gen.msg_id
                &&& final(self).id_gen.timer_id == old(self).id_gen.timer_id
            },
            !old(self).id_gen.ok() ==> final(self).failed && final(self).queue@ == old(self).queue@ && final(self).id_gen == old(self).id_gen,
    {
        if !(self.id_gen.event_id < u64::MAX && self.id_gen.msg_id < u64::MAX
            && self.id_gen.timer_id < u64::MAX && self.id_gen.insertion_seq < u64::MAX) {
            self.failed = true;
            return 0;
        }
        let id = self.id_gen.next_event_id();
        let seq = self.id_gen.next_insertion_seq();
        self.queue.push(Queued::new(id, fire_time, seq, discriminant, ev));
        proof {
            assert forall|i: int|
                0 <= i < self.world.nodes@.len() implies (#[trigger] self.world.nodes@[i]).id == i
                && self.world.nodes@[i].wf(self.id_gen) by {
                assert(old(self).world.nodes@[i].wf(old(self).id_gen));
            }
        }
        id
    }

    /// Applies what one protocol callback asked for: sends run the link
    /// fault model and queue deliveries, timer requests queue firings,
    /// key-values reach telemetry. Nothing already queued is touched and
    /// the nodes and links stay as they are.
    fn process_effects(&mut self, src: NodeId, effects: Effects)
        requires
            old(self).wf(),
            forall|i: int|
                0 <= i < effects.timer_reqs@.len() ==> (#[trigger] effects.timer_reqs@[i]).fire_at
                    >= old(self).clock,
        ensures
            final(self).wf(),
            final(self).clock == old(self).clock,
            final(self).world.nodes@ == old(self).world.nodes@,
            final(self).world.net.links@ == old(self).world.net.links@,
            final(self).state == old(self).state,
            final(self).pending_snapshot == old(self).pending_snapshot,
            final(self).queue@.len() >= old(self).queue@.len(),
            forall|k: int|
                0 <= k < old(self).queue@.len() ==> final(self).queue@[k] == old(self).queue@[k],
            effects.outbox@.len() == 0 && effects.timer_reqs@.len() == 0 ==> final(self).queue@
                == old(self).queue@ && final(self).rng == old(self).rng && final(self).id_gen
                == old(self).id_gen,
            effects.outbox@.len() == 0 && !final(self).failed ==> timers_queued(
                final(self).queue@,
                old(self).queue@,
                src,
                effects.timer_reqs@,
            ),
            forall|k: int|
                old(self).queue@.len() <= k < final(self).queue@.len() ==> effect_event_shape(
                    #[trigger] final(self).queue@[k],
                    src,
                    old(self).clock,
                ),
            final(self).telemetry.metrics.messages_sent == spec_sat_add(
                old(self).telemetry.metrics.messages_sent,
                effects.outbox@.len(),
            ),
            final(self).telemetry.metrics.messages_delivered == old(self).telemetry.metrics.messages_delivered,
            final(self).telemetry.metrics.timers_fired == old(self).telemetry.metrics.timers_fired,
    {
        let Effects { outbox, timer_reqs, kv_out, delivered: _, codec_error, failed } = effects;
        if failed {
            self.failed = true;
        }
        match codec_error {
            Some(e) => {
                self.telemetry.log_event(
                    String::from_str("PROTOCOL_ERROR"),
                    e.detail,
                    Some(src),
                );
            },
            None => {},
        }
        let n_timers = timer_reqs.len();
        let n_sends = outbox.len();
        let mut i: usize = 0;
        let mut outbox = outbox;
        while i < n_sends
            invariant
                n_sends == outbox@.len(),
                0 <= i <= n_sends,
                self.wf(),
                self.clock == old(self).clock,
                self.world.nodes@ == old(self).world.nodes@,
                self.world.net.links@ == old(self).world.net.links@,
                self.state == old(self).state,
                self.pending_snapshot == old(self).pending_snapshot,
                self.queue@.len() >= old(self).queue@.len(),
                forall|k: int|
                    0 <= k < old(self).queue@.len() ==> self.queue@[k] == old(self).queue@[k],
                n_sends == 0 ==> self.queue@ == old(self).queue@ && self.rng == old(self).rng
                    && self.id_gen == old(self).id_gen,
                forall|k: int|
                    old(self).queue@.len() <= k < self.queue@.len() ==> effect_event_shape(
                        #[trigger] self.queue@[k],
                        src,
                        old(self).clock,
                    ),
                self.telemetry.metrics.messages_sent == spec_sat_add(
                    old(self).telemetry.metrics.messages_sent,
                    i as nat,
                ),
                self.telemetry.metrics.messages_delivered == old(self).telemetry.metrics.messages_delivered,
                self.telemetry.metrics.timers_fired == old(self).telemetry.metrics.timers_fired,
            decreases n_sends - i,
        {
            let req = &outbox[i];
            self.telemetry.increment_metric(Metric::MessagesSent);
            let outcome = self.world.net.plan_send(
                &mut self.rng,
                self.clock,
                src,
                req.dst,
                req.payload.len(),
            );
            match outcome {
                SendOutcome::Scheduled { link_id, first_at, dup_at } => {
                    if self.id_gen.msg_id == u64::MAX {
                        self.failed = true;
                    } else {
                        let ghost pre_ids = *self;
                        let msg_id = self.id_gen.next_msg_id();
                        proof {
                            self.lemma_world_wf_after_ids(pre_ids);
                        }
                        let env = Envelope {
                            src,
                            dst: req.dst,
                            proto_tag: req.proto_tag,
                            payload: copy_bytes(&req.payload),
                            msg_id,
                            create_time: self.clock,
                            trace_id: 0,
                        };
                        match dup_at {
                            Some(t2) => {
                                let env2 = Envelope {
                                    src,
                                    dst: req.dst,
                                    proto_tag: req.proto_tag,
                                    payload: copy_bytes(&req.payload),
                                    msg_id,
                                    create_time: self.clock,
                                    trace_id: 0,
                                };
                                self.schedule_at(
                                    first_at,
                                    Event::Deliver { env, link_id },
                                    EventDiscriminant::delivery(src),
                                );
                                self.schedule_at(
                                    t2,
                                    Event::Deliver { env: env2, link_id },
                                    EventDiscriminant::delivery(src),
                                );
                            },
                            None => {
                                self.schedule_at(
                                    first_at,
                                    Event::Deliver { env, link_id },
                                    EventDiscriminant::delivery(src),
                                );
                            },
                        }
                    }
                },
                SendOutcome::DroppedPartition => {
                    self.telemetry.increment_metric(Metric::DroppedPartition);
                },
                SendOutcome::DroppedProbability => {
                    self.telemetry.increment_metric(Metric::DroppedProbability);
                },
                SendOutcome::ExceedsMtu { mtu: _ } => {
                    self.telemetry.log_event(
                        String::from_str("MESSAGE_EXCEEDS_MTU"),
                        String::from_str("message larger than the link's limit; not scheduled"),
                        Some(src),
                    );
                },
                SendOutcome::NoLink => {},
            }
            i = i + 1;
        }
        let mut j: usize = 0;
        while j < n_timers
            invariant
                n_timers == timer_reqs@.len(),
                0 <= j <= n_timers,
                forall|m: int|
                    0 <= m < timer_reqs@.len() ==> (#[trigger] timer_reqs@[m]).fire_at >= old(self).clock,
                self.wf(),
                self.clock == old(self).clock,
                self.world.nodes@ == old(self).world.nodes@,
                self.world.net.links@ == old(self).world.net.links@,
                self.state == old(self).state,
                self.pending_snapshot == old(self).pending_snapshot,
                self.queue@.len() >= old(self).queue@.len(),
                forall|k: int|
                    0 <= k < old(self).queue@.len() ==> self.queue@[k] == old(self).queue@[k],
                n_sends == 0 && n_timers == 0 ==> self.queue@ == old(self).queue@ && self.rng
                    == old(self).rng && self.id_gen == old(self).id_gen,
                n_sends == 0 && !self.failed ==> timers_queued(
                    self.queue@,
                    old(self).queue@,
                    src,
                    timer_reqs@.subrange(0, j as int),
                ),
                forall|k: int|
                    old(self).queue@.len() <= k < self.queue@.len() ==> effect_event_shape(
                        #[trigger] self.queue@[k],
                        src,
                        old(self).clock,
                    ),
                self.telemetry.metrics.messages_sent == spec_sat_add(
                    old(self).telemetry.metrics.messages_sent,
                    n_sends as nat,
                ),
                self.telemetry.metrics.messages_delivered == old(self).telemetry.metrics.messages_delivered,
                self.telemetry.metrics.timers_fired == old(self).telemetry.metrics.timers_fired,
            decreases n_timers - j,
        {
            let tr = timer_reqs[j];
            let ghost pre_queue = self.queue@;
            let ghost pre_failed = self.failed;
            self.schedule_at(
                tr.fire_at,
                Event::TimerFired { node_id: src, timer_id: tr.timer_id },
                EventDiscriminant::timer(src),
            );
            proof {
                if n_sends == 0 && !self.failed {
                    assert(!pre_failed);
                    assert(self.queue@.len() == pre_queue.len() + 1);
                    assert(self.queue@.last().time == tr.fire_at);
                    assert(self.queue@.last().discriminant == EventDiscriminant(1u8, src));
                    assert(self.queue@.last().payload == (Event::TimerFired {
                        node_id: src,
                        timer_id: tr.timer_id,
                    }));
                    assert(timers_queued(
                        self.queue@,
                        old(self).queue@,
                        src,
                        timer_reqs@.subrange(0, j + 1),
                    )) by {
                        assert forall|k: int|
                            0 <= k < j + 1 implies {
                            let q = #[trigger] self.queue@[old(self).queue@.len() + k];
                            &&& q.time == timer_reqs@.subrange(0, j + 1)[k].fire_at
                            &&& q.discriminant == EventDiscriminant(1u8, src)
                            &&& q.payload == (Event::TimerFired {
                                node_id: src,
                                timer_id: timer_reqs@.subrange(0, j + 1)[k].timer_id,
                            })
                        } by {
                            assert(timer_reqs@.subrange(0, j + 1)[k] == timer_reqs@[k]);
                            if k < j {
                                assert(self.queue@[old(self).queue@.len() + k] == pre_queue[old(
                                    self,
                                ).queue@.len() + k]);
                                assert(timer_reqs@.subrange(0, j as int)[k] == timer_reqs@[k]);
                            } else {
                                assert(old(self).queue@.len() + k == pre_queue.len());
                                assert(self.queue@[old(self).queue@.len() + k]
                                    == self.queue@.last());
                            }
                        }
                    }
                }
            }
            j = j + 1;
        }
        proof {
            if n_sends == 0 && !self.failed {
                assert(timer_reqs@.subrange(0, n_timers as int) =~= timer_reqs@);
            }
        }
        let n_kvs = kv_out.len();
        let mut m: usize = 0;
        let mut kv_out = kv_out;
        while m < n_kvs
            invariant
                n_kvs == kv_out@.len(),
                0 <= m <= n_kvs,
                self.wf(),
                self.clock == old(self).clock,
                self.world.nodes@ == old(self).world.nodes@,
                self.world.net.links@ == old(self).world.net.links@,
                self.state == old(self).state,
                self.pending_snapshot == old(self).pending_snapshot,
                self.queue@.len() >= old(self).queue@.len(),
                forall|k: int|
                    0 <= k < old(self).queue@.len() ==> self.queue@[k] == old(self).queue@[k],
                n_sends == 0 && n_timers == 0 ==> self.queue@ == old(self).queue@ && self.rng
                    == old(self).rng && self.id_gen == old(self).id_gen,
                n_sends == 0 && !self.failed ==> timers_queued(
                    self.queue@,
                    old(self).queue@,
                    src,
                    timer_reqs@,
                ),
                forall|k: int|
                    old(self).queue@.len() <= k < self.queue@.len() ==> effect_event_shape(
                        #[trigger] self.queue@[k],
                        src,
                        old(self).clock,
                    ),
                self.telemetry.metrics.messages_sent == spec_sat_add(
                    old(self).telemetry.metrics.messages_sent,
                    n_sends as nat,
                ),
                self.telemetry.metrics.messages_delivered == old(self).telemetry.metrics.messages_delivered,
                self.telemetry.metrics.timers_fired == old(self).telemetry.metrics.timers_fired,
            decreases n_kvs - m,
        {
            let mut pair = KvPair { key: String::new(), value: String::new() };
            core::mem::swap(&mut pair, &mut kv_out[m]);
            let KvPair { key, value } = pair;
            self.telemetry.log_node_kv(src, key, value);
            m = m + 1;
        }
    }

    /// Delivers a message to its destination node. A destination that is
    /// absent or down consumes the message silently, with an omission
    /// metric, and nothing else changes.
    fn dispatch_deliver(&mut self, env: Envelope)
        requires
            old(self).wf(),
        ensures
            final(self).wf(),
            final(self).clock == old(self).clock,
            final(self).state == old(self).state,
            final(self).queue@.len() >= old(self).queue@.len(),
            forall|k: int|
                0 <= k < old(self).queue@.len() ==> final(self).queue@[k] == old(self).queue@[k],
            env.dst >= old(self).world.nodes@.len() || old(self).world.nodes@[
                env.dst as int
            ].status != NodeStatus::Up ==> final(self).queue@ == old(self).queue@ && final(self).world.nodes@ == old(self).world.nodes@ && final(self).rng == old(self).rng
                && final(self).telemetry.metrics.messages_delivered == old(self).telemetry.metrics.messages_delivered,
            env.dst < old(self).world.nodes@.len() && old(self).world.nodes@[
                env.dst as int
            ].status == NodeStatus::Up ==> final(self).telemetry.metrics.messages_delivered
                == spec_sat_inc(old(self).telemetry.metrics.messages_delivered) && final(self).world.nodes@.len() == old(self).world.nodes@.len() && (exists|sent: Seq<crate::proto::SendReq>|
                crate::proto::proto_message_step(
                    old(self).world.nodes@[env.dst as int].proto,
                    final(self).world.nodes@[env.dst as int].proto,
                    env.src,
                    env.payload@,
                    sent,
                )),
            final(self).world.net.links@ == old(self).world.net.links@,
            forall|k: int|
                old(self).queue@.len() <= k < final(self).queue@.len() ==> effect_event_shape(
                    #[trigger] final(self).queue@[k],
                    env.dst,
                    old(self).clock,
                ),
    {
        let dst = env.dst;
        if (dst as usize) >= self.world.nodes.len() {
            self.telemetry.increment_metric(Metric::DroppedNodeDown);
            return ;
        }
        let up = matches!(self.world.nodes[dst as usize].status, NodeStatus::Up);
        if !up {
            self.telemetry.log_event(
                String::from_str("MESSAGE_OMITTED"),
                String::from_str("destination node is down"),
                Some(dst),
            );
            self.telemetry.increment_metric(Metric::DroppedNodeDown);
            return ;
        }
        self.telemetry.log_event(
            String::from_str("MESSAGE_DELIVERED"),
            String::from_str("message handed to the destination protocol"),
            Some(dst),
        );
        self.telemetry.increment_metric(Metric::MessagesDelivered);
        let clock = self.clock;
        let effects = (&mut self.world.nodes[dst as usize]).handle_message(
            &mut self.rng,
            &mut self.id_gen,
            clock,
            &env,
        );
        let ghost sent = effects.outbox@;
        proof {
            assert(self.world.wf(self.id_gen)) by {
                assert forall|i: int|
                    0 <= i < self.world.nodes@.len() implies (#[trigger] self.world.nodes@[i]).id
                    == i && self.world.nodes@[i].wf(self.id_gen) by {
                    if i != dst {
                        assert(self.world.nodes@[i] == old(self).world.nodes@[i]);
                        assert(old(self).world.nodes@[i].wf(old(self).id_gen));
                        assert(old(self).id_gen.timer_id <= self.id_gen.timer_id);
                    }
                }
            }
        }
        self.process_effects(dst, effects);
        proof {
            assert(crate::proto::proto_message_step(
                old(self).world.nodes@[dst as int].proto,
                self.world.nodes@[dst as int].proto,
                env.src,
                env.payload@,
                sent,
            ));
        }
    }

    /// Surfaces a timer event at its node. The protocol is notified only
    /// when the node is up and the timer is live; otherwise the event is
    /// discarded and nothing else changes.
    fn dispatch_timer(&mut self, node_id: NodeId, timer_id: u64)
        requires
            old(self).wf(),
        ensures
            final(self).wf(),
            final(self).clock == old(self).clock,
            final(self).state == old(self).state,
            final(self).queue@.len() >= old(self).queue@.len(),
            forall|k: int|
                0 <= k < old(self).queue@.len() ==> final(self).queue@[k] == old(self).queue@[k],
            env_down_or_dead(old(self).world.nodes@, node_id, timer_id) ==> final(self).queue@
                == old(self).queue@ && final(self).rng == old(self).rng && final(self).telemetry
                == old(self).telemetry,
            !env_down_or_dead(old(self).world.nodes@, node_id, timer_id) ==> final(self).telemetry.metrics.timers_fired == spec_sat_inc(old(self).telemetry.metrics.timers_fired),
            final(self).world.net.links@ == old(self).world.net.links@,
            forall|k: int|
                old(self).queue@.len() <= k < final(self).queue@.len() ==> effect_event_shape(
                    #[trigger] final(self).queue@[k],
                    node_id,
                    old(self).clock,
                ),
    {
        if (node_id as usize) >= self.world.nodes.len() {
            return ;
        }
        let clock = self.clock;
        let effects = (&mut self.world.nodes[node_id as usize]).handle_timer(
            &mut self.rng,
            &mut self.id_gen,
            clock,
            timer_id,
        );
        proof {
            assert(self.world.wf(self.id_gen)) by {
                assert forall|i: int|
                    0 <= i < self.world.nodes@.len() implies (#[trigger] self.world.nodes@[i]).id
                    == i && self.world.nodes@[i].wf(self.id_gen) by {
                    if i != node_id {
                        assert(self.world.nodes@[i] == old(self).world.nodes@[i]);
                        assert(old(self).world.nodes@[i].wf(old(self).id_gen));
                        assert(old(self).id_gen.timer_id <= self.id_gen.timer_id);
                    }
                }
            }
        }
        if !effects.delivered {
            return ;
        }
        self.telemetry.increment_metric(Metric::TimersFired);
        self.telemetry.log_event(
            String::from_str("TIMER_FIRED"),
            String::from_str("live timer handed to the protocol"),
            Some(node_id),
        );
        self.process_effects(node_id, effects);
    }

    /// Applies an internal fault to the world and notifies the affected
    /// protocol. A finite crash schedules its paired restart; partitions
    /// mark crossing links; heal clears every flag.
    fn handle_fault(&mut self, fault: FaultEventInternal)
        requires
            old(self).wf(),
        ensures
            final(self).wf(),
            final(self).clock == old(self).clock,
            final(self).state == old(self).state,
            final(self).queue@.len() >= old(self).queue@.len(),
            forall|k: int|
                0 <= k < old(self).queue@.len() ==> final(self).queue@[k] == old(self).queue@[k],
            fault matches FaultEventInternal::Crash { node_id, duration } ==> (node_id < old(self).world.nodes@.len() ==> final(self).world.nodes@[node_id as int].status
                == NodeStatus::Down && (!final(self).failed ==> (duration < MAX_SIM_TIME
                ==> queued_fault_is(
                final(self).queue@,
                old(self).queue@,
                time_add(old(self).clock, duration),
                FaultEventInternal::Restart { node_id },
            )) && (duration == MAX_SIM_TIME ==> final(self).queue@ == old(self).queue@))),
            fault matches FaultEventInternal::Restart { node_id } ==> (node_id < old(self).world.nodes@.len() ==> final(self).world.nodes@[node_id as int].status
                == NodeStatus::Up && crate::proto::proto_reinitialized(
                old(self).world.nodes@[node_id as int].proto,
                final(self).world.nodes@[node_id as int].proto,
            )),
            fault matches FaultEventInternal::Partition { sets } ==> final(self).world.net.links@
                == crate::net::spec_partitioned(old(self).world.net.links@, sets.deep_view())
                && final(self).queue@ == old(self).queue@ && final(self).world.nodes@ == old(self).world.nodes@ && final(self).rng == old(self).rng && final(self).id_gen == old(self).id_gen
                && final(self).pending_snapshot == old(self).pending_snapshot && final(self).failed
                == old(self).failed,
            fault matches FaultEventInternal::HealPartition ==> final(self).world.net.links@
                == crate::net::spec_healed(old(self).world.net.links@) && final(self).queue@ == old(self).queue@ && final(self).world.nodes@ == old(self).world.nodes@ && final(self).rng
                == old(self).rng && final(self).id_gen == old(self).id_gen && final(self).pending_snapshot == old(self).pending_snapshot && final(self).failed == old(self).failed,
    {
        match fault {
            FaultEventInternal::Crash { node_id, duration } => {
                if (node_id as usize) >= self.world.nodes.len() {
                    return ;
                }
                let clock = self.clock;
                let f = FaultEventInternal::Crash { node_id, duration };
                let effects = (&mut self.world.nodes[node_id as usize]).apply_fault(
                    &mut self.rng,
                    &mut self.id_gen,
                    clock,
                    &f,
                );
                proof {
                    self.lemma_world_wf_after_node(*old(self), node_id);
                }
                self.process_effects(node_id, effects);
                let ghost mid = *self;
                proof {
                    assert(mid.queue@ == old(self).queue@);
                }
                if duration < MAX_SIM_TIME {
                    let restart_at = time_add_exec(self.clock, duration);
                    self.schedule_at(
                        restart_at,
                        Event::Fault(FaultEventInternal::Restart { node_id }),
                        EventDiscriminant::fault(),
                    );
                    proof {
                        if !self.failed {
                            assert(mid.id_gen.ok() && !mid.failed);
                            assert(self.queue@.len() == old(self).queue@.len() + 1);
                            assert(self.queue@.last().time == time_add(old(self).clock, duration));
                            assert(self.queue@.last().discriminant == EventDiscriminant(
                                0u8,
                                0xffff_ffffu32,
                            ));
                            assert(self.queue@.last().payload == Event::Fault(
                                FaultEventInternal::Restart { node_id },
                            ));
                        }
                    }
                }
            },
            FaultEventInternal::Restart { node_id } => {
                if (node_id as usize) >= self.world.nodes.len() {
                    return ;
                }
                let clock = self.clock;
                let f = FaultEventInternal::Restart { node_id };
                let effects = (&mut self.world.nodes[node_id as usize]).apply_fault(
                    &mut self.rng,
                    &mut self.id_gen,
                    clock,
                    &f,
                );
                proof {
                    self.lemma_world_wf_after_node(*old(self), node_id);
                }
                self.process_effects(node_id, effects);
            },
            FaultEventInternal::ClockSkew { node_id, skew_ns } => {
                if (node_id as usize) >= self.world.nodes.len() {
                    return ;
                }
                let clock = self.clock;
                let f = FaultEventInternal::ClockSkew { node_id, skew_ns };
                let effects = (&mut self.world.nodes[node_id as usize]).apply_fault(
                    &mut self.rng,
                    &mut self.id_gen,
                    clock,
                    &f,
                );
                proof {
                    self.lemma_world_wf_after_node(*old(self), node_id);
                }
                self.process_effects(node_id, effects);
            },
            FaultEventInternal::StoreFault { node_id, kind, rate } => {
                if (node_id as usize) >= self.world.nodes.len() {
                    return ;
                }
                let clock = self.clock;
                let f = FaultEventInternal::StoreFault { node_id, kind, rate };
                let effects = (&mut self.world.nodes[node_id as usize]).apply_fault(
                    &mut self.rng,
                    &mut self.id_gen,
                    clock,
                    &f,
                );
                proof {
                    self.lemma_world_wf_after_node(*old(self), node_id);
                }
                self.process_effects(node_id, effects);
            },
            FaultEventInternal::ByzantineFlip { node_id, enabled } => {
                if (node_id as usize) >= self.world.nodes.len() {
                    return ;
                }
                let clock = self.clock;
                let f = FaultEventInternal::ByzantineFlip { node_id, enabled };
                let effects = (&mut self.world.nodes[node_id as usize]).apply_fault(
                    &mut self.rng,
                    &mut self.id_gen,
                    clock,
                    &f,
                );
                proof {
                    self.lemma_world_wf_after_node(*old(self), node_id);
                }
                self.process_effects(node_id, effects);
            },
            FaultEventInternal::Partition { sets } => {
                self.world.net.set_partition(&sets);
            },
            FaultEventInternal::HealPartition => {
                self.world.net.heal_partition();
            },
            FaultEventInternal::LinkModelUpdate { link_id, change } => {
                let found = self.world.net.update_link(link_id, change);
                if !found {
                    self.telemetry.log_event(
                        String::from_str("LINK_NOT_FOUND"),
                        String::from_str("no link with the given id; fault update ignored"),
                        None,
                    );
                }
            },
            FaultEventInternal::BroadcastBytes { payload_hex, proto_tag } => {
                match decode_hex(&payload_hex) {
                    Ok(payload) => {
                        let n = self.world.nodes.len();
                        proof {
                            if self.world.nodes@.len() > 0x1_0000_0000 {
                                assert(self.world.nodes@[0x1_0000_0000].id == 0x1_0000_0000int);
                            }
                        }
                        let mut i: usize = 0;
                        while i < n
                            invariant
                                0 <= i <= n,
                                self.wf(),
                                self.clock == old(self).clock,
                                self.state == old(self).state,
                                self.world.nodes@ == old(self).world.nodes@,
                                self.world.net.links@ == old(self).world.net.links@,
                                self.queue@.len() >= old(self).queue@.len(),
                                forall|k: int|
                                    0 <= k < old(self).queue@.len() ==> self.queue@[k] == old(self).queue@[k],
                                n <= 0x1_0000_0000,
                            decreases n - i,
                        {
                            if self.id_gen.msg_id < u64::MAX {
                                let ghost pre_ids = *self;
                                let msg_id = self.id_gen.next_msg_id();
                                proof {
                                    self.lemma_world_wf_after_ids(pre_ids);
                                }
                                let tag = match proto_tag {
                                    Some(t) => t,
                                    None => crate::envelope::ProtoTag(0),
                                };
                                let env = Envelope {
                                    src: ENGINE_SRC,
                                    dst: i as u32,
                                    proto_tag: tag,
                                    payload: copy_bytes(&payload),
                                    msg_id,
                                    create_time: self.clock,
                                    trace_id: 0,
                                };
                                let clock = self.clock;
                                self.schedule_at(
                                    clock,
                                    Event::Deliver { env, link_id: 0 },
                                    EventDiscriminant::delivery(ENGINE_SRC),
                                );
                            } else {
                                self.failed = true;
                            }
                            i = i + 1;
                        }
                        self.telemetry.log_event(
                            String::from_str("BROADCAST_BYTES"),
                            String::from_str("engine payload scheduled for every node"),
                            None,
                        );
                    },
                    Err(_) => {
                        self.telemetry.log_event(
                            String::from_str("BROADCAST_BYTES_ERROR"),
                            String::from_str("payload is not a valid hex string"),
                            None,
                        );
                    },
                }
            },
            FaultEventInternal::Custom { name: _, args: _ } => {
                self.telemetry.log_event(
                    String::from_str("CUSTOM_FAULT"),
                    String::from_str("no handler for custom faults"),
                    None,
                );
            },
        }
    }

    /// After one node changed and the id generator only advanced, the
    /// world is still sound.
    proof fn lemma_world_wf_after_node(&self, pre: Simulation, changed: NodeId)
        requires
            pre.wf(),
            self.world.nodes@.len() == pre.world.nodes@.len(),
            self.world.net == pre.world.net,
            forall|i: int|
                0 <= i < self.world.nodes@.len() && i != changed ==> self.world.nodes@[i]
                    == pre.world.nodes@[i],
            changed < self.world.nodes@.len() ==> self.world.nodes@[changed as int].wf(self.id_gen)
                && self.world.nodes@[changed as int].id == changed,
            pre.id_gen.timer_id <= self.id_gen.timer_id,
        ensures
            self.world.wf(self.id_gen),
    {
        assert forall|i: int|
            0 <= i < self.world.nodes@.len() implies (#[trigger] self.world.nodes@[i]).id == i
            && self.world.nodes@[i].wf(self.id_gen) by {
            if i != changed {
                assert(pre.world.nodes@[i].wf(pre.id_gen));
            }
        }
    }

    /// After the id generator advanced and nothing else moved, the world
    /// is still sound.
    proof fn lemma_world_wf_after_ids(&self, pre: Simulation)
        requires
            pre.wf(),
            self.world == pre.world,
            pre.id_gen.timer_id <= self.id_gen.timer_id,
        ensures
            self.world.wf(self.id_gen),
    {
        assert forall|i: int|
            0 <= i < self.world.nodes@.len() implies (#[trigger] self.world.nodes@[i]).id == i
            && self.world.nodes@[i].wf(self.id_gen) by {
            assert(pre.world.nodes@[i].wf(pre.id_gen));
        }
    }

    /// Builds the current snapshot and schedules the next tick at the
    /// fixed cadence.
    fn dispatch_snapshot(&mut self)
        requires
            old(self).wf(),
        ensures
            final(self).wf(),
            final(self).clock == old(self).clock,
            final(self).state == old(self).state,
            final(self).world.nodes@ == old(self).world.nodes@,
            final(self).world.net.links@ == old(self).world.net.links@,
            final(self).queue@.len() >= old(self).queue@.len(),
            forall|k: int|
                0 <= k < old(self).queue@.len() ==> final(self).queue@[k] == old(self).queue@[k],
            final(self).pending_snapshot is Some,
            final(self).rng == old(self).rng,
            !final(self).failed ==> snapshot_tick_queued(
                final(self).queue@,
                old(self).queue@,
                time_add(old(self).clock, ((SNAPSHOT_CADENCE_MS * 1_000_000) as SimTime)),
            ),
    {
        let snap = self.build_snapshot();
        self.pending_snapshot = Some(snap);
        let next = time_add_exec(self.clock, crate::time::sim_from_ms(SNAPSHOT_CADENCE_MS));
        self.schedule_at(next, Event::UiSnapshotTick, EventDiscriminant::ui());
        proof {
            if !self.failed {
                assert(self.queue@.len() == old(self).queue@.len() + 1);
                assert(self.queue@.last().time == time_add(
                    old(self).clock,
                    ((SNAPSHOT_CADENCE_MS * 1_000_000) as SimTime),
                ));
                assert(self.queue@.last().discriminant == EventDiscriminant(
                    255u8,
                    0xffff_ffffu32,
                ));
            }
        }
    }

    /// A consistent, read-only view of the current world state.
    pub fn build_snapshot(&self) -> (snap: Snapshot)
        requires
            self.wf(),
        ensures
            snap.time == self.clock,
            snap.metrics == self.telemetry.metrics,
            snap.nodes@.len() == self.world.nodes@.len(),
            forall|i: int|
                0 <= i < snap.nodes@.len() ==> {
                    let n = #[trigger] snap.nodes@[i];
                    &&& n.id == self.world.nodes@[i].id
                    &&& n.status == self.world.nodes@[i].status
                    &&& n.byzantine == self.world.nodes@[i].byzantine
                },
            snap.links@.len() == self.world.net.links@.len(),
            forall|i: int|
                0 <= i < snap.links@.len() ==> {
                    let l = #[trigger] snap.links@[i];
                    &&& l.id == self.world.net.links@[i].id
                    &&& l.src == self.world.net.links@[i].src
                    &&& l.dst == self.world.net.links@[i].dst
                    &&& l.is_partitioned == self.world.net.links@[i].faults.partitioned
                },
    {
        let n_nodes = self.world.nodes.len();
        let mut nodes: Vec<NodeSnap> = Vec::new();
        let mut i: usize = 0;
        while i < n_nodes
            invariant
                self.wf(),
                n_nodes == self.world.nodes@.len(),
                0 <= i <= n_nodes,
                nodes@.len() == i,
                forall|m: int|
                    0 <= m < i ==> {
                        let n = #[trigger] nodes@[m];
                        &&& n.id == self.world.nodes@[m].id
                        &&& n.status == self.world.nodes@[m].status
                        &&& n.byzantine == self.world.nodes@[m].byzantine
                    },
            decreases n_nodes - i,
        {
            let node = &self.world.nodes[i];
            let custom: Vec<KvPair> = if i < self.telemetry.node_kvs.len() {
                copy_kvs(&self.telemetry.node_kvs[i])
            } else {
                Vec::new()
            };
            nodes.push(
                NodeSnap {
                    id: node.id,
                    status: node.status,
                    timers: node.timers_len(),
                    byzantine: node.byzantine,
                    custom,
                },
            );
            i = i + 1;
        }
        let n_links = self.world.net.links.len();
        let mut links: Vec<LinkSnap> = Vec::new();
        let mut j: usize = 0;
        while j < n_links
            invariant
                n_links == self.world.net.links@.len(),
                0 <= j <= n_links,
                links@.len() == j,
                forall|m: int|
                    0 <= m < j ==> {
                        let l = #[trigger] links@[m];
                        &&& l.id == self.world.net.links@[m].id
                        &&& l.src == self.world.net.links@[m].src
                        &&& l.dst == self.world.net.links@[m].dst
                        &&& l.is_partitioned == self.world.net.links@[m].faults.partitioned
                    },
            decreases n_links - j,
        {
            let link = &self.world.net.links[j];
            links.push(
                LinkSnap {
                    id: link.id,
                    src: link.src,
                    dst: link.dst,
                    is_partitioned: link.faults.partitioned,
                },
            );
            j = j + 1;
        }
        let recent_events = copy_log_snaps(&self.telemetry.recent_events);
        Snapshot { time: self.clock, nodes, links, recent_events, metrics: self.telemetry.metrics }
    }

    /// Initializes every protocol instance, in node order, applying what
    /// each start-up callback asked for. Must run once before stepping.
    pub fn init(&mut self)
        requires
            old(self).wf(),
        ensures
            final(self).wf(),
            final(self).clock == old(self).clock,
            final(self).world.nodes@.len() == old(self).world.nodes@.len(),
            forall|i: int|
                0 <= i < old(self).world.nodes@.len() ==> crate::proto::proto_reinitialized(
                    (#[trigger] old(self).world.nodes@[i]).proto,
                    final(self).world.nodes@[i].proto,
                ),
    {
        let n = self.world.nodes.len();
        let mut i: usize = 0;
        while i < n
            invariant
                n == self.world.nodes@.len(),
                self.world.nodes@.len() == old(self).world.nodes@.len(),
                0 <= i <= n,
                self.wf(),
                self.clock == old(self).clock,
                forall|m: int|
                    0 <= m < i ==> crate::proto::proto_reinitialized(
                        (#[trigger] old(self).world.nodes@[m]).proto,
                        self.world.nodes@[m].proto,
                    ),
                forall|m: int|
                    i <= m < n ==> self.world.nodes@[m] == (#[trigger] old(self).world.nodes@[m]),
            decreases n - i,
        {
            let clock = self.clock;
            let ghost pre = *self;
            let effects = (&mut self.world.nodes[i]).init(&mut self.rng, &mut self.id_gen, clock);
            proof {
                self.lemma_world_wf_after_node(pre, i as u32);
            }
            self.process_effects(i as u32, effects);
            i = i + 1;
        }
    }

    /// Processes the earliest queued event: advances the clock to its
    /// firing time and dispatches it. The clock never decreases; events
    /// leave the queue in the total order of time, insertion sequence
    /// and discriminant. A delivery to a down node and a dead timer are
    /// consumed without effect.
    pub fn step(&mut self) -> (r: Option<SimTime>)
        requires
            old(self).wf(),
        ensures
            final(self).wf(),
            final(self).clock >= old(self).clock,
            match r {
                None => old(self).queue@.len() == 0 && final(self).clock == old(self).clock
                    && final(self).queue@ == old(self).queue@ && final(self).world == old(self).world && final(self).rng == old(self).rng && final(self).id_gen == old(self).id_gen
                    && final(self).state == old(self).state && final(self).pending_snapshot
                    == old(self).pending_snapshot && final(self).failed == old(self).failed
                    && final(self).telemetry == old(self).telemetry,
                Some(t) => {
                    let q = old(self).queue@[min_index(old(self).queue@)];
                    let base = old(self).queue@.remove(min_index(old(self).queue@));
                    &&& old(self).queue@.len() > 0
                    &&& t == final(self).clock
                    &&& t == q.time
                    &&& final(self).state == old(self).state
                    &&& final(self).queue@.len() >= base.len()
                    &&& forall|k: int| 0 <= k < base.len() ==> final(self).queue@[k] == base[k]
                    &&& (q.payload matches Event::Deliver { env, link_id } ==> forall|k: int|
                        base.len() <= k < final(self).queue@.len() ==> effect_event_shape(
                            #[trigger] final(self).queue@[k],
                            env.dst,
                            t,
                        ))
                    &&& (q.payload matches Event::TimerFired { node_id, timer_id } ==> forall|
                        k: int,
                    |
                        base.len() <= k < final(self).queue@.len() ==> effect_event_shape(
                            #[trigger] final(self).queue@[k],
                            node_id,
                            t,
                        ))
                    &&& forall|k: int|
                        0 <= k < old(self).queue@.len() ==> t <= (#[trigger] old(self).queue@[k]).time
                    &&& (q.payload matches Event::Deliver { env, link_id } ==> ((env.dst >= old(self).world.nodes@.len() || old(self).world.nodes@[env.dst as int].status
                        != NodeStatus::Up) ==> final(self).queue@ == old(self).queue@.remove(
                        min_index(old(self).queue@),
                    ) && final(self).world.nodes@ == old(self).world.nodes@ && final(self).rng
                        == old(self).rng) && (env.dst < old(self).world.nodes@.len() && old(self).world.nodes@[env.dst as int].status == NodeStatus::Up ==> final(self).telemetry.metrics.messages_delivered == spec_sat_inc(
                        old(self).telemetry.metrics.messages_delivered,
                    ) && final(self).world.nodes@.len() == old(self).world.nodes@.len() && (exists|
                        sent: Seq<crate::proto::SendReq>,
                    |
                        crate::proto::proto_message_step(
                            old(self).world.nodes@[env.dst as int].proto,
                            final(self).world.nodes@[env.dst as int].proto,
                            env.src,
                            env.payload@,
                            sent,
                        ))))
                    &&& (q.payload matches Event::TimerFired { node_id, timer_id } ==> (
                    env_down_or_dead(old(self).world.nodes@, node_id, timer_id) ==> final(self).queue@ == old(self).queue@.remove(min_index(old(self).queue@)) && final(self).rng == old(self).rng) && (!env_down_or_dead(old(self).world.nodes@, node_id, timer_id)
                        ==> final(self).telemetry.metrics.timers_fired == spec_sat_inc(
                        old(self).telemetry.metrics.timers_fired,
                    )))
                    &&& (q.payload matches Event::Fault(f) ==> fault_step_spec(
                        *old(self),
                        *final(self),
                        old(self).queue@.remove(min_index(old(self).queue@)),
                        f,
                        t,
                    ))
                    &&& (q.payload is UiSnapshotTick ==> final(self).pending_snapshot is Some
                        && final(self).world.nodes@ == old(self).world.nodes@ && final(self).world.net.links@ == old(self).world.net.links@ && final(self).rng == old(self).rng
                        && (!final(self).failed ==> snapshot_tick_queued(
                        final(self).queue@,
                        old(self).queue@.remove(min_index(old(self).queue@)),
                        time_add(t, ((SNAPSHOT_CADENCE_MS * 1_000_000) as SimTime)),
                    )))
                },
            },
    {
        let popped = match self.queue.pop_min() {
            None => {
                return None;
            },
            Some(q) => q,
        };
        proof {
            crate::queue::lemma_min_index_is_min(old(self).queue@);
            assert forall|k: int|
                0 <= k < self.queue@.len() implies (#[trigger] self.queue@[k]).time
                >= popped.time by {
                let pre = old(self).queue@;
                let mi = min_index(pre);
                assert(self.queue@[k] == pre.remove(mi)[k]);
                let k2: int = if k < mi {
                    k
                } else {
                    k + 1
                };
                assert(pre.remove(mi)[k] == pre[k2]);
                assert(!pre[k2].spec_before(pre[mi]));
            }
        }
        self.clock = popped.time;
        self.telemetry.set_current_time(popped.time, popped.id);
        match popped.payload {
            Event::Deliver { env, link_id: _ } => {
                self.dispatch_deliver(env);
            },
            Event::TimerFired { node_id, timer_id } => {
                self.dispatch_timer(node_id, timer_id);
            },
            Event::Fault(f) => {
                self.telemetry.increment_metric(Metric::FaultsInjected);
                self.handle_fault(f);
            },
            Event::UiSnapshotTick => {
                self.dispatch_snapshot();
            },
        }
        Some(self.clock)
    }

    /// Handles one control message: execution-state changes apply at
    /// once; control-originated faults are scheduled at the current
    /// clock with fault priority, indistinguishable from scenario faults
    /// once queued.
    pub fn handle_control_message(&mut self, msg: ControlMsg)
        requires
            old(self).wf(),
        ensures
            final(self).wf(),
            final(self).clock == old(self).clock,
            msg matches ControlMsg::Pause ==> final(self).state == SimulationState::Paused,
            msg matches ControlMsg::Resume ==> final(self).state == SimulationState::Running,
            msg matches ControlMsg::Step ==> final(self).state == SimulationState::Stepping,
            old(self).id_gen.ok() ==> {
                &&& (msg matches ControlMsg::KillNode(n) ==> queued_fault_is(
                    final(self).queue@,
                    old(self).queue@,
                    old(self).clock,
                    FaultEventInternal::Crash { node_id: n, duration: MAX_SIM_TIME },
                ))
                &&& (msg matches ControlMsg::RestartNode(n) ==> queued_fault_is(
                    final(self).queue@,
                    old(self).queue@,
                    old(self).clock,
                    FaultEventInternal::Restart { node_id: n },
                ))
                &&& (msg matches ControlMsg::InjectPartition { sets } ==> queued_fault_is(
                    final(self).queue@,
                    old(self).queue@,
                    old(self).clock,
                    FaultEventInternal::Partition { sets },
                ))
                &&& (msg matches ControlMsg::HealPartition ==> queued_fault_is(
                    final(self).queue@,
                    old(self).queue@,
                    old(self).clock,
                    FaultEventInternal::HealPartition,
                ))
            },
    {
        match msg {
            ControlMsg::Pause => {
                self.state = SimulationState::Paused;
            },
            ControlMsg::Resume => {
                self.state = SimulationState::Running;
            },
            ControlMsg::Step => {
                self.state = SimulationState::Stepping;
            },
            ControlMsg::KillNode(node_id) => {
                let clock = self.clock;
                self.schedule_at(
                    clock,
                    Event::Fault(
                        FaultEventInternal::Crash { node_id, duration: MAX_SIM_TIME },
                    ),
                    EventDiscriminant::fault(),
                );
            },
            ControlMsg::RestartNode(node_id) => {
                let clock = self.clock;
                self.schedule_at(
                    clock,
                    Event::Fault(FaultEventInternal::Restart { node_id }),
                    EventDiscriminant::fault(),
                );
            },
            ControlMsg::InjectPartition { sets } => {
                let clock = self.clock;
                self.schedule_at(
                    clock,
                    Event::Fault(FaultEventInternal::Partition { sets }),
                    EventDiscriminant::fault(),
                );
            },
            ControlMsg::HealPartition => {
                let clock = self.clock;
                self.schedule_at(
                    clock,
                    Event::Fault(FaultEventInternal::HealPartition),
                    EventDiscriminant::fault(),
                );
            },
        }
    }

    /// Runs until the queue drains, the state leaves `Running` or
    /// `Stepping`, or the step budget is spent; the unspent budget is
    /// returned, so a positive result says the loop halted for a reason,
    /// not for want of steps. In stepping mode one event is processed and
    /// the state returns to `Paused`. The state becomes `Completed`
    /// exactly by draining the queue or by a fatal id exhaustion.
    pub fn run(&mut self, max_steps: u64) -> (left: u64)
        requires
            old(self).wf(),
        ensures
            final(self).wf(),
            final(self).clock >= old(self).clock,
            left <= max_steps,
            left > 0 ==> final(self).state != SimulationState::Running && final(self).state
                != SimulationState::Stepping,
            (old(self).state == SimulationState::Running || old(self).state
                == SimulationState::Stepping) && final(self).state == SimulationState::Completed
                ==> final(self).queue@.len() == 0 || final(self).failed,
    {
        let mut left = max_steps;
        while left > 0 && (matches!(self.state, SimulationState::Running) || matches!(
            self.state,
            SimulationState::Stepping,
        ))
            invariant
                self.wf(),
                self.clock >= old(self).clock,
                left <= max_steps,
                (old(self).state == SimulationState::Running || old(self).state
                    == SimulationState::Stepping) && self.state == SimulationState::Completed
                    ==> self.queue@.len() == 0 || self.failed,
            decreases left,
        {
            match self.step() {
                None => {
                    self.state = SimulationState::Completed;
                },
                Some(_) => {
                    if matches!(self.state, SimulationState::Stepping) {
                        self.state = SimulationState::Paused;
                    }
                },
            }
            if self.failed {
                // An id family was exhausted: a fatal engine condition.
                self.state = SimulationState::Completed;
            }
            left = left - 1;
        }
        left
    }

    /// Runs like `run`, but halts exactly when the queue head would fire
    /// after `stop_at`: events at the stop time itself are processed, and
    /// no event past it is, so the clock never passes `stop_at`. With
    /// budget left over, the loop halted either because the head of the
    /// queue fires after `stop_at` or because the state left `Running`
    /// and `Stepping`.
    pub fn run_until(&mut self, stop_at: SimTime, max_steps: u64) -> (left: u64)
        requires
            old(self).wf(),
        ensures
            final(self).wf(),
            final(self).clock >= old(self).clock,
            final(self).clock <= stop_at || final(self).clock == old(self).clock,
            left <= max_steps,
            left > 0 ==> (final(self).state != SimulationState::Running && final(self).state
                != SimulationState::Stepping) || (final(self).queue@.len() > 0 && final(self).queue@[min_index(final(self).queue@)].time > stop_at),
            (old(self).state == SimulationState::Running || old(self).state
                == SimulationState::Stepping) && final(self).state == SimulationState::Completed
                ==> final(self).queue@.len() == 0 || final(self).failed,
    {
        let mut left = max_steps;
        while left > 0 && (matches!(self.state, SimulationState::Running) || matches!(
            self.state,
            SimulationState::Stepping,
        ))
            invariant
                self.wf(),
                self.clock >= old(self).clock,
                self.clock <= stop_at || self.clock == old(self).clock,
                left <= max_steps,
                (old(self).state == SimulationState::Running || old(self).state
                    == SimulationState::Stepping) && self.state == SimulationState::Completed
                    ==> self.queue@.len() == 0 || self.failed,
            decreases left,
        {
            match self.queue.next_time() {
                Some(t) => {
                    if t > stop_at {
                        return left;
                    }
                },
                None => {},
            }
            match self.step() {
                None => {
                    self.state = SimulationState::Completed;
                },
                Some(_) => {
                    if matches!(self.state, SimulationState::Stepping) {
                        self.state = SimulationState::Paused;
                    }
                },
            }
            if self.failed {
                // An id family was exhausted: a fatal engine condition.
                self.state = SimulationState::Completed;
            }
            left = left - 1;
        }
        left
    }
}

/// The per-fault-kind part of `step`'s contract; `base` is the queue
/// after the fault event itself left it. A finite crash queues exactly
/// one paired restart at its end, with fault priority; a permanent crash
/// (the whole of representable time) queues none. A partition or a heal
/// touches only the crossing flags of the links: the queue, the nodes,
/// the RNG and the id generator stay as they were.
pub open spec fn fault_step_spec(
    pre: Simulation,
    post: Simulation,
    base: Seq<Queued<Event>>,
    f: FaultEventInternal,
    t: SimTime,
) -> bool {
    &&& (f matches FaultEventInternal::Crash { node_id, duration } ==> (node_id
        < pre.world.nodes@.len() ==> post.world.nodes@[node_id as int].status == NodeStatus::Down
        && (!post.failed ==> (duration < MAX_SIM_TIME ==> queued_fault_is(
        post.queue@,
        base,
        time_add(t, duration),
        FaultEventInternal::Restart { node_id },
    )) && (duration == MAX_SIM_TIME ==> post.queue@ == base))))
    &&& (f matches FaultEventInternal::Restart { node_id } ==> (node_id < pre.world.nodes@.len()
        ==> post.world.nodes@[node_id as int].status == NodeStatus::Up
        && crate::proto::proto_reinitialized(
        pre.world.nodes@[node_id as int].proto,
        post.world.nodes@[node_id as int].proto,
    )))
    &&& (f matches FaultEventInternal::Partition { sets } ==> post.world.net.links@
        == crate::net::spec_partitioned(pre.world.net.links@, sets.deep_view()) && post.queue@
        == base && post.world.nodes@ == pre.world.nodes@ && post.rng == pre.rng && post.id_gen
        == pre.id_gen)
    &&& (f matches FaultEventInternal::HealPartition ==> post.world.net.links@
        == crate::net::spec_healed(pre.world.net.links@) && post.queue@ == base
        && post.world.nodes@ == pre.world.nodes@ && post.rng == pre.rng && post.id_gen
        == pre.id_gen)
}

/// Whether a timer event finds its node absent, down, or its timer no
/// longer live.
pub open spec fn env_down_or_dead(nodes: Seq<Node>, node_id: NodeId, timer_id: u64) -> bool {
    node_id >= nodes.len() || nodes[node_id as int].status != NodeStatus::Up || !nodes[
        node_id as int
    ].timers.live(timer_id)
}

/// The queue after a control fault: everything kept, one fault event
/// appended at the given time with fault priority.
pub open spec fn queued_fault_is(
    post: Seq<Queued<Event>>,
    pre: Seq<Queued<Event>>,
    at: SimTime,
    f: FaultEventInternal,
) -> bool {
    &&& post.len() == pre.len() + 1
    &&& forall|k: int| 0 <= k < pre.len() ==> post[k] == pre[k]
    &&& post.last().time == at
    &&& post.last().discriminant == EventDiscriminant(0u8, 0xffff_ffffu32)
    &&& post.last().payload == Event::Fault(f)
}

/// A character's value as a hex digit, if it is one.
pub open spec fn spec_hex_val(c: char) -> Option<u8> {
    if '0' <= c <= '9' {
        Some((c as u8 - '0' as u8) as u8)
    } else if 'a' <= c <= 'f' {
        Some((c as u8 - 'a' as u8 + 10) as u8)
    } else if 'A' <= c <= 'F' {
        Some((c as u8 - 'A' as u8 + 10) as u8)
    } else {
        None
    }
}

/// The bytes a hex string denotes: one byte per pair of digits, or
/// nothing when the length is odd or any character is not a digit.
pub open spec fn spec_decode_hex(s: Seq<char>) -> Option<Seq<u8>>
    decreases s.len(),
{
    if s.len() == 0 {
        Some(Seq::empty())
    } else if s.len() == 1 {
        None
    } else {
        match (spec_hex_val(s[0]), spec_hex_val(s[1])) {
            (Some(hi), Some(lo)) => match spec_decode_hex(s.skip(2)) {
                Some(rest) => Some(seq![(hi * 16 + lo) as u8] + rest),
                None => None,
            },
            _ => None,
        }
    }
}

/// The value of one hex digit character, matching `spec_hex_val`.
fn hex_val(c: char) -> (r: Option<u8>)
    ensures
        r == spec_hex_val(c),
{
    if '0' <= c && c <= '9' {
        Some(c as u8 - '0' as u8)
    } else if 'a' <= c && c <= 'f' {
        Some(c as u8 - 'a' as u8 + 10)
    } else if 'A' <= c && c <= 'F' {
        Some(c as u8 - 'A' as u8 + 10)
    } else {
        None
    }
}

/// Decodes a hex string into bytes: exactly the strings of even length
/// made of hex digits decode, two digits to a byte.
pub fn decode_hex(hex_str: &String) -> (r: Result<Vec<u8>, String>)
    ensures
        match r {
            Ok(bytes) => spec_decode_hex(hex_str@) == Some(bytes@),
            Err(_) => spec_decode_hex(hex_str@) is None,
        },
{
    let s = hex_str.as_str();
    let len = s.unicode_len();
    if len % 2 != 0 {
        proof {
            lemma_decode_hex_odd(hex_str@);
        }
        return Err(String::from_str("hex string has odd length"));
    }
    let mut bytes: Vec<u8> = Vec::new();
    let mut i: usize = 0;
    proof {
        assert(hex_str@.skip(0) =~= hex_str@);
    }
    while i < len
        invariant
            len == hex_str@.len(),
            len % 2 == 0,
            i % 2 == 0,
            0 <= i <= len,
            s@ == hex_str@,
            forall|rest: Seq<u8>|
                spec_decode_hex(hex_str@.skip(i as int)) == Some(rest) ==> spec_decode_hex(
                    hex_str@,
                ) == Some(bytes@ + rest),
            spec_decode_hex(hex_str@.skip(i as int)) is None ==> spec_decode_hex(hex_str@) is None,
        decreases len - i,
    {
        let ghost old_bytes = bytes@;
        let ghost tail = hex_str@.skip(i as int);
        proof {
            assert(tail[0] == hex_str@[i as int]);
            assert(tail[1] == hex_str@[i + 1]);
            assert(tail.skip(2) =~= hex_str@.skip(i + 2));
        }
        let c_hi = s.get_char(i);
        let c_lo = s.get_char(i + 1);
        let hi = match hex_val(c_hi) {
            Some(v) => v,
            None => {
                proof {
                    lemma_decode_hex_bad_digit(tail);
                }
                return Err(String::from_str("hex string holds a non-hex character"));
            },
        };
        let lo = match hex_val(c_lo) {
            Some(v) => v,
            None => {
                proof {
                    lemma_decode_hex_bad_digit(tail);
                }
                return Err(String::from_str("hex string holds a non-hex character"));
            },
        };
        let byte: u8 = hi * 16 + lo;
        bytes.push(byte);
        proof {
            assert(spec_hex_val(tail[0]) == Some(hi));
            assert(spec_hex_val(tail[1]) == Some(lo));
            if spec_decode_hex(hex_str@.skip(i + 2)) is Some {
                let rest2 = spec_decode_hex(hex_str@.skip(i + 2)).unwrap();
                assert(spec_decode_hex(tail) == Some(seq![byte] + rest2));
                assert(old_bytes + (seq![byte] + rest2) =~= bytes@ + rest2);
                assert forall|rest: Seq<u8>|
                    spec_decode_hex(hex_str@.skip(i + 2)) == Some(rest) implies spec_decode_hex(
                    hex_str@,
                ) == Some(bytes@ + rest) by {
                    assert(rest == rest2);
                    assert(spec_decode_hex(hex_str@) == Some(old_bytes + (seq![byte] + rest2)));
                }
            } else {
                assert(spec_decode_hex(tail) is None);
            }
        }
        i = i + 2;
    }
    proof {
        assert(hex_str@.skip(len as int).len() == 0);
        assert(spec_decode_hex(hex_str@.skip(len as int)) == Some(Seq::<u8>::empty()));
        assert(bytes@ + Seq::<u8>::empty() =~= bytes@);
    }
    Ok(bytes)
}

/// An odd-length string does not decode.
proof fn lemma_decode_hex_odd(s: Seq<char>)
    requires
        s.len() % 2 == 1,
    ensures
        spec_decode_hex(s) is None,
    decreases s.len(),
{
    if s.len() > 1 {
        lemma_decode_hex_odd(s.skip(2));
    }
}

/// A string opening with a non-digit does not decode.
proof fn lemma_decode_hex_bad_digit(s: Seq<char>)
    requires
        s.len() >= 2,
        spec_hex_val(s[0]) is None || spec_hex_val(s[1]) is None,
    ensures
        spec_decode_hex(s) is None,
{
}

/// A copy of a key-value list, pair for pair.
fn copy_kvs(v: &Vec<KvPair>) -> (r: Vec<KvPair>)
    ensures
        r@.len() == v@.len(),
        forall|i: int|
            0 <= i < v@.len() ==> (#[trigger] r@[i]).key@ == v@[i].key@ && r@[i].value@
                == v@[i].value@,
{
    let mut r: Vec<KvPair> = Vec::new();
    let n = v.len();
    let mut i: usize = 0;
    while i < n
        invariant
            n == v.len(),
            0 <= i <= n,
            r@.len() == i,
            forall|m: int|
                0 <= m < i ==> (#[trigger] r@[m]).key@ == v@[m].key@ && r@[m].value@
                    == v@[m].value@,
        decreases n - i,
    {
        let p = &v[i];
        r.push(KvPair { key: p.key.clone(), value: p.value.clone() });
        i = i + 1;
    }
    r
}

/// A copy of a list of recent-event summaries.
fn copy_log_snaps(v: &Vec<crate::telemetry::LogSnap>) -> (r: Vec<crate::telemetry::LogSnap>)
    ensures
        r@.len() == v@.len(),
{
    let mut r: Vec<crate::telemetry::LogSnap> = Vec::new();
    let n = v.len();
    let mut i: usize = 0;
    while i < n
        invariant
            n == v.len(),
            0 <= i <= n,
            r@.len() == i,
        decreases n - i,
    {
        let p = &v[i];
        r.push(
            crate::telemetry::LogSnap {
                event_id: p.event_id,
                time: p.time,
                event_type: p.event_type.clone(),
                details: p.details.clone(),
                node_id: p.node_id,
            },
        );
        i = i + 1;
    }
    r
}

} // verus!
