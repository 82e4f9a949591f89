//! The world: the top-level container for all simulated state, the nodes
//! and the network that connects them.

use vstd::prelude::*;
use crate::ids::{IdGen, NodeId};
use crate::net::Net;
use crate::node::Node;

verus! {

/// The entire state of the simulated distributed system.
pub struct World {
    /// The nodes, indexed by their ids: `nodes[i].id == i`.
    pub nodes: Vec<Node>,
    /// The directed link graph.
    pub net: Net,
}

impl World {
    /// Well-formed against the id generator that allocated its timers:
    /// node ids equal their indices, every node's runtime is sound, and
    /// the network's endpoints lie within the node list.
    pub open spec fn wf(self, ids: IdGen) -> bool {
        &&& forall|i: int|
            0 <= i < self.nodes@.len() ==> (#[trigger] self.nodes@[i]).id == i && self.nodes@[i].wf(
                ids,
            )
        &&& self.net.wf()
        &&& self.net.num_nodes == self.nodes@.len()
    }

    /// A reference to a node by its id.
    pub fn node(&self, id: NodeId) -> (n: &Node)
        requires
            id < self.nodes@.len(),
        ensures
            n == self.nodes@[id as int],
    {
        &self.nodes[id as usize]
    }

    /// A mutable reference to a node by its id.
    pub fn node_mut(&mut self, id: NodeId) -> (n: &mut Node)
        requires
            id < old(self).nodes@.len(),
        ensures
            *n == old(self).nodes@[id as int],
            final(self).net == old(self).net,
            final(self).nodes@ == old(self).nodes@.update(id as int, *final(n)),
    {
        &mut self.nodes[id as usize]
    }
}

} // verus!

verus! {

/// Builds the initial world from the validated initial specification: one
/// node per id hosting the selected protocol, and the network from the
/// topology. Nothing is known of the protocol tag except registration.
pub fn build_world(
    num_nodes: usize,
    proto_tag: crate::envelope::ProtoTag,
    topology: &crate::net::TopologySpec,
    rng: &mut crate::rng::MasterRng,
) -> (r: Result<World, crate::errors::SimError>)
    requires
        num_nodes <= 0xffff_ffff,
        crate::net::spec_topology_ok(num_nodes, *topology),
    ensures
        match r {
            Ok(w) => {
                &&& w.wf(IdGen { event_id: 0, msg_id: 0, timer_id: 0, insertion_seq: 0 })
                &&& w.nodes@.len() == num_nodes
                &&& forall|i: int|
                    0 <= i < num_nodes ==> (#[trigger] w.nodes@[i]).status
                        == crate::telemetry::NodeStatus::Up
            },
            Err(e) => e == (crate::errors::SimError::ProtocolNotRegistered {
                proto_tag: proto_tag.0,
            }),
        },
{
    let mut nodes: Vec<Node> = Vec::new();
    let mut i: usize = 0;
    while i < num_nodes
        invariant
            num_nodes <= 0xffff_ffff,
            0 <= i <= num_nodes,
            nodes@.len() == i,
            forall|j: int|
                0 <= j < i ==> (#[trigger] nodes@[j]).id == j && nodes@[j].status
                    == crate::telemetry::NodeStatus::Up && nodes@[j].wf(
                    IdGen { event_id: 0, msg_id: 0, timer_id: 0, insertion_seq: 0 },
                ),
        decreases num_nodes - i,
    {
        let proto = match crate::proto::ProtoInstance::from_tag(proto_tag) {
            Some(p) => p,
            None => {
                return Err(
                    crate::errors::SimError::ProtocolNotRegistered { proto_tag: proto_tag.0 },
                );
            },
        };
        nodes.push(Node::new(i as u32, proto));
        i = i + 1;
    }
    let net = crate::net::Net::from_topology(num_nodes, topology, rng);
    Ok(World { nodes, net })
}

/// Fills each node's peer list from the network, in node order.
pub fn finalize_world_setup(world: &mut World)
    ensures
        final(world).nodes@.len() == old(world).nodes@.len(),
        final(world).net == old(world).net,
        forall|i: int|
            0 <= i < old(world).nodes@.len() ==> final(world).nodes@[i] == (Node {
                peers: final(world).nodes@[i].peers,
                ..old(world).nodes@[i]
            }),
{
    let n = world.nodes.len();
    let mut i: usize = 0;
    while i < n
        invariant
            n == world.nodes@.len(),
            0 <= i <= n,
            world.net == old(world).net,
            forall|j: int|
                0 <= j < n ==> world.nodes@[j] == (Node {
                    peers: world.nodes@[j].peers,
                    ..old(world).nodes@[j]
                }),
        decreases n - i,
    {
        let peers = world.net.peers_of(i as u32);
        (&mut world.nodes[i]).set_peers(peers);
        i = i + 1;
    }
}

} // verus!
