//! The hosted protocols running on the kernel, and the telemetry that
//! observes them.

use ftsim::envelope::ProtoTag;
use ftsim::events::{Event, EventDiscriminant, FaultEventInternal};
use ftsim::net::TopologySpec;
use ftsim::primary_backup::PbMessage;
use ftsim::proto::ProtoInstance;
use ftsim::raft_lite::Role;
use ftsim::rng::MasterRng;
use ftsim::sim::Simulation;
use ftsim::telemetry::{Metric, TelemetryBus};
use ftsim::world::{build_world, finalize_world_setup};

fn sim_with(seed: u64, nodes: usize, proto_tag: u16) -> Simulation {
    let mut rng = MasterRng::new(seed);
    let mut world =
        build_world(nodes, ProtoTag(proto_tag), &TopologySpec::FullMesh, &mut rng).unwrap();
    finalize_world_setup(&mut world);
    Simulation::new(seed, world)
}

fn hex_of(bytes: &[u8]) -> String {
    let mut s = String::new();
    for b in bytes {
        s.push_str(&format!("{:02x}", b));
    }
    s
}

#[test]
fn raft_elects_a_single_leader() {
    let mut sim = sim_with(21, 3, ftsim::raft_lite::RAFT_TAG);
    sim.init();
    sim.run_until(2_000_000_000, 100_000);
    let mut leaders = 0;
    let mut terms = Vec::new();
    for node in &sim.world.nodes {
        if let ProtoInstance::RaftLite(raft) = &node.proto {
            if raft.state.role == Role::Leader {
                leaders += 1;
            }
            terms.push(raft.state.current_term);
        } else {
            panic!("every node hosts the raft protocol");
        }
    }
    assert_eq!(leaders, 1);
    assert!(terms.iter().all(|t| *t >= 1));
    assert!(sim.telemetry.metrics.timers_fired >= 1);
    assert!(sim.telemetry.metrics.messages_delivered >= 4);
}

#[test]
fn unknown_protocol_tag_is_a_configuration_error() {
    let mut rng = MasterRng::new(1);
    let r = build_world(2, ProtoTag(99), &TopologySpec::FullMesh, &mut rng);
    match r {
        Err(ftsim::errors::SimError::ProtocolNotRegistered { proto_tag }) => {
            assert_eq!(proto_tag, 99);
        },
        other => panic!("unexpected result: {:?}", other.is_ok()),
    }
}

#[test]
fn primary_applies_writes_and_backups_adopt_them() {
    // A write request injected to every node: the primary applies it
    // and replicates; the backups adopt the replicated table.
    let mut sim = sim_with(3, 3, ftsim::primary_backup::PB_TAG);
    sim.init();
    let write = PbMessage::WriteRequest { key: b"city".to_vec(), value: b"ulm".to_vec() };
    let payload = ftsim::primary_backup::encode_pb(&write);
    sim.schedule_at(
        1_000_000,
        Event::Fault(FaultEventInternal::BroadcastBytes {
            payload_hex: hex_of(&payload),
            proto_tag: Some(ProtoTag(ftsim::primary_backup::PB_TAG)),
        }),
        EventDiscriminant::fault(),
    );
    sim.run(100_000);
    for (i, node) in sim.world.nodes.iter().enumerate() {
        if let ProtoInstance::PrimaryBackup(pb) = &node.proto {
            assert_eq!(pb.is_primary, i == 0);
            assert_eq!(pb.data.len(), 1, "node {} table", i);
            assert_eq!(pb.data[0].key, b"city".to_vec());
            assert_eq!(pb.data[0].value, b"ulm".to_vec());
        } else {
            panic!("every node hosts the primary-backup protocol");
        }
    }
}

#[test]
fn undecodable_bytes_are_consumed_without_effect() {
    let mut sim = sim_with(3, 2, ftsim::primary_backup::PB_TAG);
    sim.init();
    sim.schedule_at(
        0,
        Event::Fault(FaultEventInternal::BroadcastBytes {
            payload_hex: String::from("ffff"),
            proto_tag: Some(ProtoTag(ftsim::primary_backup::PB_TAG)),
        }),
        EventDiscriminant::fault(),
    );
    sim.run(10_000);
    assert_eq!(sim.telemetry.metrics.messages_delivered, 2);
    for node in &sim.world.nodes {
        if let ProtoInstance::PrimaryBackup(pb) = &node.proto {
            assert!(pb.data.is_empty());
        }
    }
    // The failures were logged and the events consumed.
    let errors = sim
        .telemetry
        .recent_events
        .iter()
        .filter(|e| e.event_type == "PROTOCOL_ERROR")
        .count();
    assert_eq!(errors, 2);
}

#[test]
fn id_exhaustion_is_fatal_not_a_panic() {
    let mut sim = sim_with(1, 2, ftsim::primary_backup::PB_TAG);
    sim.id_gen.insertion_seq = u64::MAX;
    sim.schedule_at(
        0,
        Event::Fault(FaultEventInternal::HealPartition),
        EventDiscriminant::fault(),
    );
    assert!(sim.failed);
    assert_eq!(sim.queue.len(), 0);
    // The run loop treats the condition as completion.
    sim.run(10);
    assert_eq!(sim.state, ftsim::control::SimulationState::Completed);
}

#[test]
fn telemetry_ring_keeps_the_latest_hundred() {
    let mut bus = TelemetryBus::new(1);
    for i in 0..130u64 {
        bus.set_current_time(i as u128, i);
        bus.log_event(String::from("TICK"), String::from("probe"), None);
    }
    assert_eq!(bus.recent_events.len(), 100);
    assert_eq!(bus.recent_events[0].event_id, 30);
    assert_eq!(bus.recent_events[99].event_id, 129);
}

#[test]
fn telemetry_counters_and_kvs_update() {
    let mut bus = TelemetryBus::new(2);
    bus.increment_metric(Metric::MessagesSent);
    bus.increment_metric(Metric::MessagesSent);
    bus.increment_metric(Metric::DroppedNodeDown);
    assert_eq!(bus.metrics.messages_sent, 2);
    assert_eq!(bus.metrics.dropped_node_down, 1);
    bus.log_node_kv(1, String::from("role"), String::from("follower"));
    bus.log_node_kv(1, String::from("role"), String::from("leader"));
    bus.log_node_kv(7, String::from("role"), String::from("ignored"));
    assert_eq!(bus.node_kvs[1].len(), 1);
    assert_eq!(bus.node_kvs[1][0].key, "role");
    assert_eq!(bus.node_kvs[1][0].value, "leader");
    assert!(bus.node_kvs[0].is_empty());
}

#[test]
fn node_key_values_surface_in_snapshots() {
    let mut sim = sim_with(4, 2, ftsim::primary_backup::PB_TAG);
    sim.init();
    sim.run(10_000);
    let snap = sim.build_snapshot();
    let roles: Vec<&str> = snap.nodes
        .iter()
        .map(|n| {
            n.custom
                .iter()
                .find(|kv| kv.key == "role")
                .map(|kv| kv.value.as_str())
                .unwrap_or("missing")
        })
        .collect();
    assert_eq!(roles, vec!["primary", "backup"]);
}
