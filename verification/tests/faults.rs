//! Fault injection: crashes with paired restarts, partitions and
//! healing, drop and duplication probabilities.

use ftsim::envelope::ProtoTag;
use ftsim::events::{Event, EventDiscriminant, FaultEventInternal, LinkModelChange};
use ftsim::net::{Net, SendOutcome, TopologySpec};
use ftsim::prob::Bernoulli;
use ftsim::rng::MasterRng;
use ftsim::scenario::{load_and_schedule, Action, Directive, InitialSpec, Scenario};
use ftsim::sim::Simulation;
use ftsim::telemetry::NodeStatus;
use ftsim::time::MAX_SIM_TIME;
use ftsim::world::{build_world, finalize_world_setup};

fn sim_with(seed: u64, nodes: usize, proto_tag: u16) -> Simulation {
    let mut rng = MasterRng::new(seed);
    let mut world =
        build_world(nodes, ProtoTag(proto_tag), &TopologySpec::FullMesh, &mut rng).unwrap();
    finalize_world_setup(&mut world);
    Simulation::new(seed, world)
}

#[test]
fn single_crash_downs_the_node_and_restart_revives_it() {
    // Five raft nodes; node 1 crashes at 50ms for 30ms. Between the
    // crash and its paired restart the node is down; at 80ms the
    // restart fires and the protocol re-initializes.
    let mut sim = sim_with(1, 5, ftsim::raft_lite::RAFT_TAG);
    sim.init();
    let scenario = Scenario {
        name: String::from("single-crash"),
        seed: Some(1),
        initial: InitialSpec { nodes: 5, proto: ProtoTag(ftsim::raft_lite::RAFT_TAG) },
        topology: TopologySpec::FullMesh,
        directives: vec![Directive::At(
            50_000_000,
            Action::Crash { node: 1, duration: 30_000_000 },
        )],
        stop_at: None,
    };
    assert!(scenario.validate().is_ok());
    load_and_schedule(&mut sim, &scenario);
    sim.run_until(49_000_000, 100_000);
    assert_eq!(sim.world.nodes[1].status, NodeStatus::Up);
    sim.run_until(79_000_000, 100_000);
    assert_eq!(sim.world.nodes[1].status, NodeStatus::Down);
    assert!(sim.telemetry.metrics.faults_injected >= 1);
    sim.run_until(80_000_000, 100_000);
    assert_eq!(sim.world.nodes[1].status, NodeStatus::Up);
    // The protocol was re-initialized: its election timer is armed again.
    match &sim.world.nodes[1].proto {
        ftsim::proto::ProtoInstance::RaftLite(raft) => {
            assert!(raft.election_timer.is_some());
        },
        _ => panic!("every node hosts the raft protocol"),
    }
}

#[test]
fn zero_duration_crash_restarts_at_the_same_instant() {
    // A crash of duration zero queues its paired restart at the crash
    // time itself: once the run passes that instant the node is up.
    let mut sim = sim_with(9, 3, ftsim::echo::ECHO_TAG);
    sim.init();
    let scenario = Scenario {
        name: String::from("instant-crash"),
        seed: Some(9),
        initial: InitialSpec { nodes: 3, proto: ProtoTag(ftsim::echo::ECHO_TAG) },
        topology: TopologySpec::FullMesh,
        directives: vec![Directive::At(5_000_000, Action::Crash { node: 0, duration: 0 })],
        stop_at: None,
    };
    assert!(scenario.validate().is_ok());
    load_and_schedule(&mut sim, &scenario);
    sim.run_until(10_000_000, 100_000);
    assert_eq!(sim.world.nodes[0].status, NodeStatus::Up);
    assert!(sim.telemetry.metrics.faults_injected >= 2);
}

#[test]
fn kill_control_message_crashes_permanently() {
    let mut sim = sim_with(3, 3, ftsim::echo::ECHO_TAG);
    sim.init();
    sim.handle_control_message(ftsim::control::ControlMsg::KillNode(2));
    sim.run(10_000);
    assert_eq!(sim.world.nodes[2].status, NodeStatus::Down);
    assert_eq!(sim.world.nodes[0].status, NodeStatus::Up);
}

#[test]
fn partition_marks_crossing_links_and_heal_clears_them() {
    // Partition {0,1} from {2,3}: exactly the eight links between the
    // halves are marked, deliveries queued before the partition still
    // arrive, and healing clears every flag.
    let mut sim = sim_with(1, 4, ftsim::echo::ECHO_TAG);
    sim.init();
    // Twelve greetings leave at time zero, before the partition.
    sim.schedule_at(
        20_000_000,
        Event::Fault(FaultEventInternal::Partition { sets: vec![vec![0, 1], vec![2, 3]] }),
        EventDiscriminant::fault(),
    );
    sim.schedule_at(
        80_000_000,
        Event::Fault(FaultEventInternal::HealPartition),
        EventDiscriminant::fault(),
    );
    sim.run_until(30_000_000, 100_000);
    let mut crossing = 0;
    for link in &sim.world.net.links {
        let cross = (link.src < 2) != (link.dst < 2);
        assert_eq!(link.faults.partitioned, cross);
        if cross {
            crossing += 1;
        }
    }
    assert_eq!(crossing, 8);
    // Everything sent before the partition was already delivered.
    assert_eq!(sim.telemetry.metrics.messages_sent, 24);
    assert_eq!(sim.telemetry.metrics.messages_delivered, 24);
    assert_eq!(sim.telemetry.metrics.dropped_partition, 0);
    sim.run_until(80_000_000, 100_000);
    for link in &sim.world.net.links {
        assert!(!link.faults.partitioned);
    }
}

#[test]
fn sends_into_a_partition_are_dropped_with_reason() {
    // Two raft nodes separated at 20ms: every election message crosses
    // the cut and is dropped with the partition reason; after healing,
    // traffic flows again.
    let mut sim = sim_with(11, 2, ftsim::raft_lite::RAFT_TAG);
    sim.init();
    sim.schedule_at(
        20_000_000,
        Event::Fault(FaultEventInternal::Partition { sets: vec![vec![0], vec![1]] }),
        EventDiscriminant::fault(),
    );
    sim.schedule_at(
        1_000_000_000,
        Event::Fault(FaultEventInternal::HealPartition),
        EventDiscriminant::fault(),
    );
    sim.run_until(900_000_000, 100_000);
    assert!(sim.telemetry.metrics.dropped_partition > 0);
    assert_eq!(sim.telemetry.metrics.messages_delivered, 0);
    let delivered_before_heal = sim.telemetry.metrics.messages_delivered;
    sim.run_until(2_000_000_000, 100_000);
    assert!(sim.telemetry.metrics.messages_delivered > delivered_before_heal);
}

#[test]
fn heal_partition_is_idempotent() {
    let mut sim = sim_with(1, 4, ftsim::echo::ECHO_TAG);
    sim.init();
    sim.world.net.set_partition(&vec![vec![0], vec![1, 2]]);
    sim.world.net.heal_partition();
    let once = sim.world.net.links.clone();
    sim.world.net.heal_partition();
    assert_eq!(sim.world.net.links, once);
}

#[test]
fn drop_probability_halves_deliveries() {
    // One link with a one-half drop rate, ten thousand trials at seed
    // 42: the delivered count is this exact, frozen number.
    let mut rng = MasterRng::new(42);
    let mut net = Net::from_topology(
        2,
        &TopologySpec::FromEdges { edges: vec![(0, 1)] },
        &mut rng,
    );
    assert!(net.update_link(
        0,
        LinkModelChange::SetDrop(Bernoulli { ppm: 500_000 }),
    ));
    let mut delivered = 0u64;
    let mut dropped = 0u64;
    for _ in 0..10_000 {
        match net.plan_send(&mut rng, 0, 0, 1, 16) {
            SendOutcome::Scheduled { .. } => delivered += 1,
            SendOutcome::DroppedProbability => dropped += 1,
            other => panic!("unexpected outcome: {:?}", other),
        }
    }
    assert_eq!(delivered + dropped, 10_000);
    assert_eq!(delivered, 5059);
}

#[test]
fn certain_duplication_yields_exactly_two_deliveries() {
    // duplicate rate one: every send schedules exactly two copies whose
    // delivery times come from independent draws.
    let mut rng = MasterRng::new(1);
    let mut net = Net::from_topology(
        2,
        &TopologySpec::FromEdges { edges: vec![(0, 1)] },
        &mut rng,
    );
    assert!(net.update_link(
        0,
        LinkModelChange::SetDuplicate(Bernoulli { ppm: 1_000_000 }),
    ));
    for _ in 0..100 {
        match net.plan_send(&mut rng, 0, 0, 1, 16) {
            SendOutcome::Scheduled { dup_at, first_at, .. } => {
                let dup = dup_at.expect("a duplicate under a certain rate");
                assert!(first_at >= 10_000_000);
                assert!(dup >= 10_000_000);
            },
            other => panic!("unexpected outcome: {:?}", other),
        }
    }
    // End to end: with certain duplication, one greeting over the mesh
    // is counted once as sent and twice as delivered.
    let mut sim = sim_with(2, 2, ftsim::echo::ECHO_TAG);
    for link_id in 0..sim.world.net.links.len() as u64 {
        sim.world.net.update_link(
            link_id,
            LinkModelChange::SetDuplicate(Bernoulli { ppm: 1_000_000 }),
        );
    }
    sim.init();
    // 2 greetings; each delivered twice; each delivery answers with an
    // answer (4 answers), each delivered twice.
    sim.run(100_000);
    assert_eq!(sim.telemetry.metrics.messages_sent, 6);
    assert_eq!(sim.telemetry.metrics.messages_delivered, 12);
}

#[test]
fn oversize_message_is_not_scheduled() {
    let mut rng = MasterRng::new(1);
    let mut net = Net::from_topology(
        2,
        &TopologySpec::FromEdges { edges: vec![(0, 1)] },
        &mut rng,
    );
    let mut model = net.links[0].faults;
    model.mtu_bytes = Some(8);
    net.links[0].faults = model;
    match net.plan_send(&mut rng, 0, 0, 1, 16) {
        SendOutcome::ExceedsMtu { mtu } => assert_eq!(mtu, 8),
        other => panic!("unexpected outcome: {:?}", other),
    }
    match net.plan_send(&mut rng, 0, 0, 1, 8) {
        SendOutcome::Scheduled { .. } => {},
        other => panic!("unexpected outcome: {:?}", other),
    }
}

#[test]
fn broadcast_bytes_reaches_every_node() {
    // The engine payload "00" decodes to an echo greeting: every node
    // answers, and the answers aim at the reserved engine id, which no
    // link leads to, so nothing further is scheduled.
    let mut sim = sim_with(1, 3, ftsim::echo::ECHO_TAG);
    sim.schedule_at(
        0,
        Event::Fault(FaultEventInternal::BroadcastBytes {
            payload_hex: String::from("00"),
            proto_tag: Some(ProtoTag(ftsim::echo::ECHO_TAG)),
        }),
        EventDiscriminant::fault(),
    );
    sim.run(10_000);
    assert_eq!(sim.telemetry.metrics.messages_delivered, 3);
    assert_eq!(sim.telemetry.metrics.messages_sent, 3);
    assert_eq!(sim.telemetry.metrics.dropped_node_down, 0);
}

#[test]
fn permanent_crash_uses_the_whole_time_range() {
    let mut sim = sim_with(1, 2, ftsim::echo::ECHO_TAG);
    sim.init();
    sim.schedule_at(
        5_000_000,
        Event::Fault(FaultEventInternal::Crash { node_id: 0, duration: MAX_SIM_TIME }),
        EventDiscriminant::fault(),
    );
    sim.run(10_000);
    // No paired restart: the node stays down to the end of the run.
    assert_eq!(sim.world.nodes[0].status, NodeStatus::Down);
}
