//! The storage view with fault injection, and the timer book with its
//! tombstone cancellation.

use ftsim::envelope::ProtoTag;
use ftsim::ids::IdGen;
use ftsim::prob::Bernoulli;
use ftsim::proto::Ctx;
use ftsim::rng::MasterRng;
use ftsim::store::{LogRecord, MemStore, StoreFaultKind, StoreFaultModel};
use ftsim::timers::TimerWheel;

fn bare_ctx(node_id: u32) -> Ctx {
    Ctx {
        node_id,
        proto_tag: ProtoTag(0),
        clock: 0,
        skew: 0,
        peers: Vec::new(),
        store_faults: StoreFaultModel::none(),
        timers: TimerWheel::new(),
        store: MemStore::new(),
        rng: MasterRng::new(1),
        ids: IdGen::new(),
        outbox: Vec::new(),
        timer_reqs: Vec::new(),
        kv_out: Vec::new(),
        failed: false,
    }
}

#[test]
fn log_round_trip_without_faults() {
    let mut store = MemStore::new();
    let first = store.append_log(LogRecord { term: 3, data: vec![1, 2, 3] }).unwrap();
    let second = store.append_log(LogRecord { term: 4, data: vec![] }).unwrap();
    assert_eq!(first, 0);
    assert_eq!(second, 1);
    let got = store.read_log(first).unwrap().unwrap();
    assert_eq!(got.term, 3);
    assert_eq!(got.data, vec![1, 2, 3]);
    assert_eq!(store.read_log(2).unwrap(), None);
}

#[test]
fn kv_round_trip_and_replacement() {
    let mut store = MemStore::new();
    store.kv_put(b"k1".to_vec(), b"v1".to_vec()).unwrap();
    store.kv_put(b"k2".to_vec(), b"v2".to_vec()).unwrap();
    store.kv_put(b"k1".to_vec(), b"v3".to_vec()).unwrap();
    assert_eq!(store.kv_get(&b"k1".to_vec()).unwrap(), Some(b"v3".to_vec()));
    assert_eq!(store.kv_get(&b"k2".to_vec()).unwrap(), Some(b"v2".to_vec()));
    assert_eq!(store.kv_get(&b"k3".to_vec()).unwrap(), None);
}

#[test]
fn store_context_round_trip_without_faults() {
    let mut ctx = bare_ctx(0);
    let idx = ctx.append_log(LogRecord { term: 9, data: vec![7] }).unwrap();
    let got = ctx.read_log(idx).unwrap().unwrap();
    assert_eq!(got.term, 9);
    assert_eq!(got.data, vec![7]);
    ctx.kv_put(b"a".to_vec(), b"b".to_vec()).unwrap();
    assert_eq!(ctx.kv_get(&b"a".to_vec()).unwrap(), Some(b"b".to_vec()));
    assert_eq!(ctx.fsync(), Ok(()));
}

#[test]
fn certain_write_fault_rejects_appends() {
    let mut ctx = bare_ctx(0);
    ctx.store_faults =
        StoreFaultModel::none().with_rate(StoreFaultKind::WriteError, Bernoulli { ppm: 1_000_000 });
    let r = ctx.append_log(LogRecord { term: 1, data: vec![] });
    assert_eq!(r, Err(ftsim::errors::StoreError::FaultInjected));
    // The log is untouched and a read finds nothing.
    assert_eq!(ctx.read_log(0).unwrap(), None);
}

#[test]
fn certain_stale_read_hides_records() {
    let mut ctx = bare_ctx(0);
    let idx = ctx.append_log(LogRecord { term: 1, data: vec![5] }).unwrap();
    ctx.store_faults =
        StoreFaultModel::none().with_rate(StoreFaultKind::StaleRead, Bernoulli { ppm: 1_000_000 });
    assert_eq!(ctx.read_log(idx).unwrap(), None);
    ctx.store_faults = StoreFaultModel::none();
    assert!(ctx.read_log(idx).unwrap().is_some());
}

#[test]
fn certain_fsync_fault_fails_fsync() {
    let mut ctx = bare_ctx(0);
    ctx.store_faults =
        StoreFaultModel::none().with_rate(StoreFaultKind::FsyncFail, Bernoulli { ppm: 1_000_000 });
    assert_eq!(ctx.fsync(), Err(ftsim::errors::StoreError::FaultInjected));
}

#[test]
fn zero_rates_make_no_draws() {
    let mut ctx = bare_ctx(4);
    ctx.append_log(LogRecord { term: 1, data: vec![] }).unwrap();
    ctx.read_log(0).unwrap();
    ctx.fsync().unwrap();
    let rec = &ctx.rng.recorder;
    assert_eq!(rec.draws_at(ftsim::rng::Site::StoreAppendWriteError(4)), 0);
    assert_eq!(rec.draws_at(ftsim::rng::Site::StoreReadError(4)), 0);
    assert_eq!(rec.draws_at(ftsim::rng::Site::StoreFsync(4)), 0);
}

#[test]
fn cancelled_timer_never_fires() {
    // A timer set for ten milliseconds and cancelled at five: the
    // cancellation reports true and the firing is a silent no-op.
    let mut ctx = bare_ctx(0);
    let t = ctx.set_timer(10_000_000);
    assert_eq!(ctx.timer_reqs.len(), 1);
    assert_eq!(ctx.timer_reqs[0].timer_id, t);
    assert_eq!(ctx.timer_reqs[0].fire_at, 10_000_000);
    assert!(ctx.cancel_timer(t));
    assert!(!ctx.timers.fire_timer(t));
}

#[test]
fn live_timer_fires_once() {
    let mut wheel = TimerWheel::new();
    wheel.add_timer(3);
    assert_eq!(wheel.active_timers(), 1);
    assert!(wheel.fire_timer(3));
    assert!(!wheel.fire_timer(3));
    assert_eq!(wheel.active_timers(), 0);
}

#[test]
fn cancelling_an_unknown_timer_reports_false() {
    let mut wheel = TimerWheel::new();
    assert!(!wheel.cancel_timer(9));
    wheel.add_timer(9);
    assert!(wheel.cancel_timer(9));
    // Still listed until its event surfaces; cancelling again is
    // still acknowledged.
    assert!(wheel.cancel_timer(9));
    assert!(!wheel.fire_timer(9));
}

#[test]
fn crash_clears_the_timer_book() {
    let mut wheel = TimerWheel::new();
    wheel.add_timer(1);
    wheel.add_timer(2);
    wheel.clear();
    assert_eq!(wheel.active_timers(), 0);
    assert!(!wheel.fire_timer(1));
    assert!(!wheel.fire_timer(2));
}

#[test]
fn timer_cancel_race_in_a_full_run() {
    // A raft node arms its election timer at start-up; cancelling it
    // through the node before it fires means the protocol never hears
    // it: no timer fires in the whole run.
    let mut rng = MasterRng::new(1);
    let mut world = ftsim::world::build_world(
        1,
        ProtoTag(ftsim::raft_lite::RAFT_TAG),
        &ftsim::net::TopologySpec::FullMesh,
        &mut rng,
    )
    .unwrap();
    ftsim::world::finalize_world_setup(&mut world);
    let mut sim = ftsim::sim::Simulation::new(1, world);
    sim.init();
    assert!(sim.world.nodes[0].cancel_timer(0));
    sim.run(10_000);
    assert_eq!(sim.telemetry.metrics.timers_fired, 0);
}
