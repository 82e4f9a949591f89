//! A deterministic discrete-event simulator for distributed fault-tolerant
//! protocols. The simulator hosts protocol instances ("nodes") connected by a
//! modeled network, advances a global logical clock event by event, and
//! injects faults (crashes, partitions, delay/drop, storage errors, clock
//! skew) on a scheduled timeline. Given the same seed and scenario, every run
//! produces an identical event trace.

pub mod codec;
pub mod control;
pub mod echo;
pub mod envelope;
pub mod errors;
pub mod events;
pub mod fmt;
pub mod ids;
pub mod net;
pub mod node;
pub mod primary_backup;
pub mod prob;
pub mod proto;
pub mod queue;
pub mod raft_lite;
pub mod rng;
pub mod scenario;
pub mod sim;
pub mod store;
pub mod telemetry;
pub mod time;
pub mod timers;
pub mod world;
