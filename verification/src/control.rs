//! Control messages an interactive observer sends into the simulation
//! between steps, and the execution states the run loop moves through.
//! A control-originated fault is scheduled at the current clock and is
//! indistinguishable from a scenario fault once queued.

use vstd::prelude::*;
use crate::ids::NodeId;

verus! {

/// Messages from the control surface. Speed changes only affect how the
/// surrounding loop sleeps and never reach the core.
#[derive(Debug, Clone)]
pub enum ControlMsg {
    /// Pause execution.
    Pause,
    /// Resume execution.
    Resume,
    /// Process exactly one event, then pause.
    Step,
    /// Crash a node permanently.
    KillNode(NodeId),
    /// Restart a node.
    RestartNode(NodeId),
    /// Partition the network into the given groups.
    InjectPartition { sets: Vec<Vec<NodeId>> },
    /// Clear all partitions.
    HealPartition,
}

/// The state of simulation execution control.
#[derive(Debug, Clone, Copy, PartialEq, Eq, Structural)]
pub enum SimulationState {
    /// Running normally.
    Running,
    /// Paused; the run loop idles.
    Paused,
    /// One step will run, then the state becomes `Paused`.
    Stepping,
    /// The event queue drained, or a fatal condition was recorded.
    Completed,
}

} // verus!
