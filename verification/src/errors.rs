//! Common error types used throughout the simulator. Every variant has a
//! deterministic `Debug` form so that failure reports are reproducible.

use vstd::prelude::*;

verus! {

/// A general-purpose error for the simulation engine.
#[derive(Debug, Clone, PartialEq, Eq, Structural)]
pub enum SimError {
    TimeOverflow,
    TimeUnderflow,
    IdOverflow,
    NodeNotFound { node_id: u32 },
    LinkNotFound { link_id: u64 },
    ProtocolNotRegistered { proto_tag: u16 },
}

/// An error during message serialization or deserialization.
#[derive(Debug, Clone, PartialEq, Eq)]
pub struct CodecError {
    pub detail: String,
}

/// An error originating from the storage subsystem.
#[derive(Debug, Clone, PartialEq, Eq)]
pub enum StoreError {
    Io { detail: String },
    NoSpace,
    NotFound { index: u64 },
    FaultInjected,
}

/// An error originating from the network subsystem.
#[derive(Debug, Clone, PartialEq, Eq, Structural)]
pub enum NetError {
    ExceedsMtu { mtu: usize },
}

/// An error raised while reading or validating a scenario before any event
/// is scheduled.
#[derive(Debug, Clone, PartialEq, Eq)]
pub enum ConfigError {
    Io { detail: String },
    Parse { detail: String },
    Validation { name: String, message: String },
}

} // verus!
