//! The envelope: the wrapper for all messages exchanged between nodes. It
//! carries the protocol payload and the metadata needed for routing,
//! tracing and fault injection.

use vstd::prelude::*;
use crate::ids::NodeId;
use crate::time::SimTime;

verus! {

/// A unique tag identifying the protocol namespace for a message, so that
/// several protocols can share a node without interference.
#[derive(Debug, Clone, Copy, PartialEq, Eq, Structural)]
pub struct ProtoTag(pub u16);

/// A message traversing a link of the simulated network.
#[derive(Debug, Clone)]
pub struct Envelope {
    /// The sending node; `ENGINE_SRC` marks engine-injected messages.
    pub src: NodeId,
    /// The destination node.
    pub dst: NodeId,
    /// The protocol namespace this message belongs to.
    pub proto_tag: ProtoTag,
    /// The protocol payload, serialized into raw bytes.
    pub payload: Vec<u8>,
    /// A unique, deterministically assigned ID for this message. A
    /// duplicated delivery carries the same ID.
    pub msg_id: u64,
    /// The simulation time at which the message was created.
    pub create_time: SimTime,
    /// Correlates related events for observability.
    pub trace_id: u64,
}

} // verus!
