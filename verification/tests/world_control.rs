//! World construction across topologies, the control surface, and the
//! remaining fault kinds.

use ftsim::control::{ControlMsg, SimulationState};
use ftsim::envelope::ProtoTag;
use ftsim::events::{Event, EventDiscriminant, FaultEventInternal, LinkModelChange};
use ftsim::net::{Net, TopologySpec};
use ftsim::prob::{Bernoulli, DelaySpec};
use ftsim::rng::MasterRng;
use ftsim::sim::Simulation;
use ftsim::store::StoreFaultKind;
use ftsim::world::{build_world, finalize_world_setup};

fn sim_with(seed: u64, nodes: usize, proto_tag: u16) -> Simulation {
    let mut rng = MasterRng::new(seed);
    let mut world =
        build_world(nodes, ProtoTag(proto_tag), &TopologySpec::FullMesh, &mut rng).unwrap();
    finalize_world_setup(&mut world);
    Simulation::new(seed, world)
}

fn net_of(n: usize, spec: TopologySpec) -> Net {
    let mut rng = MasterRng::new(1);
    Net::from_topology(n, &spec, &mut rng)
}

#[test]
fn full_mesh_links_every_ordered_pair() {
    let net = net_of(4, TopologySpec::FullMesh);
    assert_eq!(net.links.len(), 12);
    for (i, link) in net.links.iter().enumerate() {
        assert_eq!(link.id as usize, i);
        assert_ne!(link.src, link.dst);
    }
    let peers = net.peers_of(2);
    assert_eq!(peers, vec![0, 1, 3]);
}

#[test]
fn ring_links_neighbours_both_ways() {
    let net = net_of(4, TopologySpec::Ring);
    assert_eq!(net.links.len(), 8);
    let peers = net.peers_of(0);
    assert!(peers.contains(&1));
    assert!(peers.contains(&3));
    assert!(!peers.contains(&2));
}

#[test]
fn star_links_everyone_to_the_hub() {
    let net = net_of(5, TopologySpec::Star { hub: 2 });
    assert_eq!(net.links.len(), 8);
    for link in &net.links {
        assert!(link.src == 2 || link.dst == 2);
    }
    assert_eq!(net.peers_of(2).len(), 4);
    assert_eq!(net.peers_of(0), vec![2]);
}

#[test]
fn kary_tree_links_parents_and_children() {
    let net = net_of(7, TopologySpec::KaryTree { k: 2 });
    // A full binary tree on seven nodes: six parent-child pairs, both
    // directions.
    assert_eq!(net.links.len(), 12);
    let mut root_peers = net.peers_of(0);
    root_peers.sort();
    assert_eq!(root_peers, vec![1, 2]);
    let mut mid_peers = net.peers_of(1);
    mid_peers.sort();
    assert_eq!(mid_peers, vec![0, 3, 4]);
}

#[test]
fn random_graph_is_reproducible_and_in_range() {
    let a = net_of(6, TopologySpec::ErdosRenyi { p: Bernoulli { ppm: 500_000 } });
    let b = net_of(6, TopologySpec::ErdosRenyi { p: Bernoulli { ppm: 500_000 } });
    assert_eq!(a.links, b.links);
    for link in &a.links {
        assert!(link.src < 6 && link.dst < 6 && link.src != link.dst);
    }
    let none = net_of(6, TopologySpec::ErdosRenyi { p: Bernoulli { ppm: 0 } });
    assert!(none.links.is_empty());
    let all = net_of(3, TopologySpec::ErdosRenyi { p: Bernoulli { ppm: 1_000_000 } });
    assert_eq!(all.links.len(), 6);
}

#[test]
fn control_messages_steer_the_execution_state() {
    let mut sim = sim_with(1, 2, ftsim::echo::ECHO_TAG);
    sim.init();
    sim.handle_control_message(ControlMsg::Pause);
    assert_eq!(sim.state, SimulationState::Paused);
    // A paused simulation does not step.
    let before = sim.telemetry.metrics.messages_delivered;
    sim.run(1_000);
    assert_eq!(sim.telemetry.metrics.messages_delivered, before);
    // Stepping processes exactly one event and pauses again.
    sim.handle_control_message(ControlMsg::Step);
    assert_eq!(sim.state, SimulationState::Stepping);
    sim.run(1_000);
    assert_eq!(sim.state, SimulationState::Paused);
    assert_eq!(sim.telemetry.metrics.messages_delivered, before + 1);
    sim.handle_control_message(ControlMsg::Resume);
    assert_eq!(sim.state, SimulationState::Running);
    sim.run(1_000);
    assert_eq!(sim.state, SimulationState::Completed);
}

#[test]
fn control_partition_and_heal_become_queued_faults() {
    let mut sim = sim_with(1, 4, ftsim::echo::ECHO_TAG);
    sim.handle_control_message(ControlMsg::InjectPartition {
        sets: vec![vec![0], vec![1, 2]],
    });
    sim.step();
    let crossing = sim
        .world
        .net
        .links
        .iter()
        .filter(|l| l.faults.partitioned)
        .count();
    assert_eq!(crossing, 4);
    sim.handle_control_message(ControlMsg::HealPartition);
    sim.step();
    assert!(sim.world.net.links.iter().all(|l| !l.faults.partitioned));
}

#[test]
fn clock_skew_shifts_a_node_view_of_time() {
    let mut sim = sim_with(1, 2, ftsim::echo::ECHO_TAG);
    sim.init();
    sim.schedule_at(
        0,
        Event::Fault(FaultEventInternal::ClockSkew { node_id: 1, skew_ns: -7 }),
        EventDiscriminant::fault(),
    );
    sim.run(10_000);
    assert_eq!(sim.world.nodes[0].clock_skew_ns, 0);
    assert_eq!(sim.world.nodes[1].clock_skew_ns, -7);
}

#[test]
fn byzantine_flip_raises_the_flag() {
    let mut sim = sim_with(1, 2, ftsim::echo::ECHO_TAG);
    sim.init();
    sim.schedule_at(
        0,
        Event::Fault(FaultEventInternal::ByzantineFlip { node_id: 0, enabled: true }),
        EventDiscriminant::fault(),
    );
    sim.run(10_000);
    assert!(sim.world.nodes[0].byzantine);
    assert!(!sim.world.nodes[1].byzantine);
    let snap = sim.build_snapshot();
    assert!(snap.nodes[0].byzantine);
}

#[test]
fn store_fault_event_updates_the_node_rates() {
    let mut sim = sim_with(1, 2, ftsim::echo::ECHO_TAG);
    sim.init();
    sim.schedule_at(
        0,
        Event::Fault(FaultEventInternal::StoreFault {
            node_id: 1,
            kind: StoreFaultKind::ReadError,
            rate: Bernoulli { ppm: 250_000 },
        }),
        EventDiscriminant::fault(),
    );
    sim.run(10_000);
    assert_eq!(sim.world.nodes[1].store_faults.read_error.ppm, 250_000);
    assert_eq!(sim.world.nodes[1].store_faults.write_error.ppm, 0);
    assert_eq!(sim.world.nodes[0].store_faults.read_error.ppm, 0);
}

#[test]
fn link_model_update_changes_one_link() {
    let mut sim = sim_with(1, 3, ftsim::echo::ECHO_TAG);
    sim.schedule_at(
        0,
        Event::Fault(FaultEventInternal::LinkModelUpdate {
            link_id: 1,
            change: LinkModelChange::SetDelay(DelaySpec::Const(5)),
        }),
        EventDiscriminant::fault(),
    );
    sim.run(10_000);
    assert_eq!(sim.world.net.links[1].faults.base_delay, DelaySpec::Const(5));
    assert_ne!(sim.world.net.links[0].faults.base_delay, DelaySpec::Const(5));
}

#[test]
fn skew_adjusted_time_saturates_at_zero() {
    assert_eq!(ftsim::time::skew_adjust_exec(100, -300), 0);
    assert_eq!(ftsim::time::skew_adjust_exec(100, 25), 125);
    assert_eq!(ftsim::time::skew_adjust_exec(100, -40), 60);
    assert_eq!(
        ftsim::time::skew_adjust_exec(ftsim::time::MAX_SIM_TIME, 5),
        ftsim::time::MAX_SIM_TIME
    );
}
