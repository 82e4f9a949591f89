//! Scenario validation and the translation of directives into queued
//! faults, plus the probability and delay primitives.

use ftsim::envelope::ProtoTag;
use ftsim::net::{topology_ok, TopologySpec};
use ftsim::prob::{sample_delay, Bernoulli, DelaySpec, PROB_ONE};
use ftsim::rng::MasterRng;
use ftsim::events::FaultEventInternal;
use ftsim::scenario::{action_to_internal, Action, Directive, InitialSpec, Scenario};
use ftsim::time::{checked_add, checked_sub, sim_from_ms, sim_from_us, MAX_SIM_TIME};

fn base_scenario(directives: Vec<Directive>) -> Scenario {
    Scenario {
        name: String::from("probe"),
        seed: Some(7),
        initial: InitialSpec { nodes: 4, proto: ProtoTag(ftsim::echo::ECHO_TAG) },
        topology: TopologySpec::FullMesh,
        directives,
        stop_at: Some(1_000_000_000),
    }
}

#[test]
fn valid_scenario_passes() {
    let s = base_scenario(vec![
        Directive::At(1_000, Action::Crash { node: 3, duration: 5 }),
        Directive::After { offset: 10, action: Action::HealPartition },
        Directive::Every {
            period: 100,
            repeats: 3,
            action: Action::Partition { sets: vec![vec![0], vec![1, 2]] },
        },
    ]);
    assert!(s.validate().is_ok());
}

#[test]
fn zero_duration_crash_is_accepted() {
    // A crash of duration zero is a crash whose restart fires at the same
    // instant; validation has no rule against it.
    let s = base_scenario(vec![Directive::At(
        1_000,
        Action::Crash { node: 0, duration: 0 },
    )]);
    assert!(s.validate().is_ok());
}

#[test]
fn directive_at_unknown_node_is_rejected() {
    let s = base_scenario(vec![Directive::At(0, Action::Restart { node: 4 })]);
    assert!(s.validate().is_err());
    let s = base_scenario(vec![Directive::At(0, Action::Restart { node: 3 })]);
    assert!(s.validate().is_ok());
}

#[test]
fn partition_groups_must_be_disjoint_nonempty_strict() {
    // An empty group.
    let s = base_scenario(vec![Directive::At(
        0,
        Action::Partition { sets: vec![vec![0], vec![]] },
    )]);
    assert!(s.validate().is_err());
    // A node in two groups.
    let s = base_scenario(vec![Directive::At(
        0,
        Action::Partition { sets: vec![vec![0, 1], vec![1]] },
    )]);
    assert!(s.validate().is_err());
    // The union covers every node: not a strict subset.
    let s = base_scenario(vec![Directive::At(
        0,
        Action::Partition { sets: vec![vec![0, 1], vec![2, 3]] },
    )]);
    assert!(s.validate().is_err());
    // A member outside the world.
    let s = base_scenario(vec![Directive::At(
        0,
        Action::Partition { sets: vec![vec![0], vec![7]] },
    )]);
    assert!(s.validate().is_err());
}

#[test]
fn rates_above_one_are_rejected() {
    let s = base_scenario(vec![Directive::At(
        0,
        Action::LinkDrop { link: 0, p: Bernoulli { ppm: PROB_ONE + 1 } },
    )]);
    assert!(s.validate().is_err());
    let s = base_scenario(vec![Directive::At(
        0,
        Action::StoreFault {
            node: 0,
            kind: ftsim::store::StoreFaultKind::ReadError,
            rate: Bernoulli { ppm: PROB_ONE },
        },
    )]);
    assert!(s.validate().is_ok());
}

#[test]
fn topology_fit_is_checked() {
    assert!(topology_ok(4, &TopologySpec::Star { hub: 3 }));
    assert!(!topology_ok(4, &TopologySpec::Star { hub: 4 }));
    assert!(topology_ok(4, &TopologySpec::KaryTree { k: 2 }));
    assert!(!topology_ok(4, &TopologySpec::KaryTree { k: 0 }));
    assert!(!topology_ok(2, &TopologySpec::FromEdges { edges: vec![(0, 2)] }));
    assert!(topology_ok(3, &TopologySpec::FromEdges { edges: vec![(0, 2)] }));
}

#[test]
fn actions_map_totally_to_internal_faults() {
    match action_to_internal(Action::Crash { node: 2, duration: 9 }) {
        FaultEventInternal::Crash { node_id, duration } => {
            assert_eq!(node_id, 2);
            assert_eq!(duration, 9);
        },
        other => panic!("unexpected fault: {:?}", other),
    }
    match action_to_internal(Action::HealPartition) {
        FaultEventInternal::HealPartition => {},
        other => panic!("unexpected fault: {:?}", other),
    }
    match action_to_internal(Action::LinkDrop { link: 4, p: Bernoulli { ppm: 3 } }) {
        FaultEventInternal::LinkModelUpdate { link_id, change } => {
            assert_eq!(link_id, 4);
            match change {
                ftsim::events::LinkModelChange::SetDrop(p) => assert_eq!(p.ppm, 3),
                other => panic!("unexpected change: {:?}", other),
            }
        },
        other => panic!("unexpected fault: {:?}", other),
    }
}

#[test]
fn bernoulli_is_exact_at_the_ends() {
    let never = Bernoulli { ppm: 0 };
    let always = Bernoulli { ppm: PROB_ONE };
    let mut rng = MasterRng::new(5);
    for _ in 0..200 {
        let draw = rng.draw(ftsim::rng::Site::NetTopology);
        assert!(!never.hits(draw));
        assert!(always.hits(draw));
    }
}

#[test]
fn delay_distributions_stay_in_range() {
    let mut rng = MasterRng::new(5);
    for _ in 0..200 {
        let draw = rng.draw(ftsim::rng::Site::NetDelayBase);
        assert_eq!(sample_delay(draw, &DelaySpec::Const(12)), 12);
        let u = sample_delay(draw, &DelaySpec::Uniform { lo: 5, hi: 9 });
        assert!((5..=9).contains(&u));
        assert_eq!(sample_delay(draw, &DelaySpec::Uniform { lo: 9, hi: 5 }), 9);
        let n = sample_delay(draw, &DelaySpec::Normal { mu: 100, sigma: 10 });
        assert!((90..=110).contains(&n));
        assert_eq!(sample_delay(draw, &DelaySpec::Pareto { scale: 40, shape: 3 }), 40);
    }
}

#[test]
fn time_conversions_and_checked_arithmetic() {
    assert_eq!(sim_from_ms(50), 50_000_000);
    assert_eq!(sim_from_us(7), 7_000);
    assert_eq!(checked_add(1, 2), Ok(3));
    assert!(checked_add(MAX_SIM_TIME, 1).is_err());
    assert_eq!(checked_sub(5, 2), Ok(3));
    assert!(checked_sub(2, 5).is_err());
}

#[test]
fn rng_seed_wrapper_carries_its_value() {
    let seed = ftsim::rng::RngSeed(99);
    assert_eq!(seed.0, 99);
    let mut world_rng = MasterRng::new(seed.0);
    let mut again = MasterRng::new(seed.0);
    for site in [ftsim::rng::Site::NetDrop, ftsim::rng::Site::ProtoNode(1)] {
        assert_eq!(world_rng.draw(site), again.draw(site));
    }
}

#[test]
fn load_and_schedule_queues_every_directive() {
    let mut rng = MasterRng::new(1);
    let mut world = ftsim::world::build_world(
        4,
        ProtoTag(ftsim::echo::ECHO_TAG),
        &TopologySpec::FullMesh,
        &mut rng,
    )
    .unwrap();
    ftsim::world::finalize_world_setup(&mut world);
    let mut sim = ftsim::sim::Simulation::new(1, world);
    let s = base_scenario(vec![
        Directive::At(1_000, Action::Restart { node: 0 }),
        Directive::Every { period: 100, repeats: 3, action: Action::HealPartition },
    ]);
    let before = sim.queue.len();
    ftsim::scenario::load_and_schedule(&mut sim, &s);
    assert_eq!(sim.queue.len(), before + 4);
}
