//! End-to-end runs of the kernel: determinism, clock monotonicity, queue
//! ordering, and the no-fault baseline.

use ftsim::envelope::ProtoTag;
use ftsim::events::{Event, EventDiscriminant, Queued};
use ftsim::net::TopologySpec;
use ftsim::queue::EventQueue;
use ftsim::rng::{MasterRng, Site};
use ftsim::sim::Simulation;
use ftsim::world::{build_world, finalize_world_setup};

fn sim_with(seed: u64, nodes: usize, proto_tag: u16) -> Simulation {
    let mut rng = MasterRng::new(seed);
    let mut world =
        build_world(nodes, ProtoTag(proto_tag), &TopologySpec::FullMesh, &mut rng).unwrap();
    finalize_world_setup(&mut world);
    Simulation::new(seed, world)
}

fn run_trace(seed: u64, nodes: usize, proto_tag: u16, max_steps: u64) -> Vec<u128> {
    let mut sim = sim_with(seed, nodes, proto_tag);
    sim.init();
    let mut trace = Vec::new();
    for _ in 0..max_steps {
        match sim.step() {
            Some(t) => trace.push(t),
            None => break,
        }
    }
    trace
}

#[test]
fn identical_runs_pop_identical_traces() {
    let a = run_trace(1, 3, ftsim::echo::ECHO_TAG, 10_000);
    let b = run_trace(1, 3, ftsim::echo::ECHO_TAG, 10_000);
    assert_eq!(a, b);
    assert!(!a.is_empty());

    // A protocol that draws randomness still replays exactly.
    let a = run_trace(42, 3, ftsim::raft_lite::RAFT_TAG, 500);
    let b = run_trace(42, 3, ftsim::raft_lite::RAFT_TAG, 500);
    assert_eq!(a, b);
}

#[test]
fn identical_runs_log_identical_event_summaries() {
    let mut runs = Vec::new();
    for _ in 0..2 {
        let mut sim = sim_with(13, 3, ftsim::raft_lite::RAFT_TAG);
        sim.init();
        sim.run(400);
        let summary: Vec<(u64, u128, Option<u32>)> = sim
            .telemetry
            .recent_events
            .iter()
            .map(|e| (e.event_id, e.time, e.node_id))
            .collect();
        runs.push(summary);
    }
    assert_eq!(runs[0], runs[1]);
    assert!(!runs[0].is_empty());
}

#[test]
fn identical_runs_record_identical_draw_counts() {
    let mut first = sim_with(7, 3, ftsim::raft_lite::RAFT_TAG);
    first.init();
    first.run(300);
    let mut second = sim_with(7, 3, ftsim::raft_lite::RAFT_TAG);
    second.init();
    second.run(300);
    for site in [
        Site::NetDrop,
        Site::NetDelayBase,
        Site::NetDelayJitter,
        Site::NetDuplicate,
        Site::ProtoNode(0),
        Site::ProtoNode(1),
        Site::ProtoNode(2),
    ] {
        assert_eq!(
            first.rng.recorder.draws_at(site),
            second.rng.recorder.draws_at(site)
        );
    }
    assert!(first.rng.recorder.draws_at(Site::ProtoNode(0)) > 0);
    assert_eq!(first.telemetry.metrics, second.telemetry.metrics);
}

#[test]
fn clock_never_decreases() {
    let trace = run_trace(9, 4, ftsim::raft_lite::RAFT_TAG, 2_000);
    for w in trace.windows(2) {
        assert!(w[0] <= w[1]);
    }
}

#[test]
fn queue_pops_in_time_seq_discriminant_order() {
    let mut q: EventQueue<u32> = EventQueue::new();
    // Same time, later insertion sequence: FIFO among equal times.
    q.push(Queued::new(0, 50, 4, EventDiscriminant::delivery(1), 104));
    q.push(Queued::new(1, 10, 5, EventDiscriminant::delivery(0), 105));
    q.push(Queued::new(2, 50, 2, EventDiscriminant::ui(), 102));
    // Same time and sequence: the discriminant breaks the tie, faults first.
    q.push(Queued::new(3, 50, 3, EventDiscriminant::delivery(2), 203));
    q.push(Queued::new(4, 50, 3, EventDiscriminant::fault(), 303));
    let mut popped = Vec::new();
    while let Some(e) = q.pop_min() {
        popped.push(e.payload);
    }
    assert_eq!(popped, vec![105, 102, 303, 203, 104]);
}

#[test]
fn no_fault_baseline_delivers_every_message() {
    // Three echo nodes on a full mesh: six greetings, six answers, and
    // every delivery arrives between 10 and 12 milliseconds after its
    // send.
    let mut sim = sim_with(1, 3, ftsim::echo::ECHO_TAG);
    sim.init();
    assert_eq!(sim.telemetry.metrics.messages_sent, 6);
    let mut times = Vec::new();
    while let Some(t) = sim.step() {
        times.push(t);
    }
    assert_eq!(sim.telemetry.metrics.messages_sent, 12);
    assert_eq!(sim.telemetry.metrics.messages_delivered, 12);
    assert_eq!(sim.telemetry.metrics.dropped_partition, 0);
    assert_eq!(sim.telemetry.metrics.dropped_probability, 0);
    assert_eq!(times.len(), 12);
    // The greetings, sent at time zero, arrive within [10ms, 12ms].
    for t in &times[..6] {
        assert!(10_000_000 <= *t && *t <= 12_000_000);
    }
    // Each answer arrives within another [10ms, 12ms].
    for t in &times[6..] {
        assert!(20_000_000 <= *t && *t <= 24_000_000);
    }
}

#[test]
fn snapshot_reflects_world_state() {
    let mut sim = sim_with(5, 3, ftsim::echo::ECHO_TAG);
    sim.init();
    sim.run(1_000);
    let snap = sim.build_snapshot();
    assert_eq!(snap.nodes.len(), 3);
    assert_eq!(snap.links.len(), 6);
    assert_eq!(snap.metrics, sim.telemetry.metrics);
    for (i, node) in snap.nodes.iter().enumerate() {
        assert_eq!(node.id as usize, i);
        assert!(!node.byzantine);
    }
    for link in &snap.links {
        assert!(!link.is_partitioned);
    }
}

#[test]
fn snapshot_tick_produces_pending_snapshot() {
    let mut sim = sim_with(5, 2, ftsim::echo::ECHO_TAG);
    sim.init();
    sim.schedule_at(0, Event::UiSnapshotTick, EventDiscriminant::ui());
    assert!(sim.take_snapshot().is_none());
    // The tick is at time zero with interface priority: it runs after
    // nothing else at that time, and reschedules itself at the fixed
    // cadence.
    sim.step();
    let snap = sim.take_snapshot().expect("a snapshot after the tick");
    assert_eq!(snap.time, 0);
    assert!(sim.take_snapshot().is_none());
    sim.run_until(50_000_000, 10_000);
    assert!(sim.take_snapshot().is_some());
}
