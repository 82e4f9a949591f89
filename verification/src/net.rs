//! The network model: a directed graph of links with a per-link fault
//! model. The send path applies partition, drop, delay, jitter and
//! duplication, and decides when (if at all) a message is delivered.

use vstd::prelude::*;
use crate::ids::{LinkId, NodeId};
use crate::prob::{sample_delay, spec_sample_delay, Bernoulli, DelaySpec};
use crate::rng::{MasterRng, Site};
use crate::time::{time_add, time_add_exec, SimTime};

verus! {

/// The fault model applied to one directed link.
#[derive(Debug, Clone, Copy, PartialEq, Eq, Structural)]
pub struct LinkFaultModel {
    pub drop: Bernoulli,
    pub duplicate: Bernoulli,
    pub corrupt: Bernoulli,
    pub base_delay: DelaySpec,
    pub jitter: DelaySpec,
    pub reorder_window: usize,
    pub partitioned: bool,
    pub bandwidth_bytes_per_ms: Option<u64>,
    pub mtu_bytes: Option<usize>,
}

impl Default for LinkFaultModel {
    /// The healthy link: no loss, a 10 ms base delay with up to 2 ms of
    /// jitter, no duplication, no partition, no size limits.
    fn default() -> (m: LinkFaultModel)
        ensures
            m == LinkFaultModel::spec_default(),
    {
        LinkFaultModel {
            drop: Bernoulli::never(),
            duplicate: Bernoulli::never(),
            corrupt: Bernoulli::never(),
            base_delay: DelaySpec::Const(10_000_000),
            jitter: DelaySpec::Uniform { lo: 0, hi: 2_000_000 },
            reorder_window: 0,
            partitioned: false,
            bandwidth_bytes_per_ms: None,
            mtu_bytes: None,
        }
    }
}

impl LinkFaultModel {
    pub open spec fn spec_default() -> LinkFaultModel {
        LinkFaultModel {
            drop: Bernoulli { ppm: 0 },
            duplicate: Bernoulli { ppm: 0 },
            corrupt: Bernoulli { ppm: 0 },
            base_delay: DelaySpec::Const(10_000_000),
            jitter: DelaySpec::Uniform { lo: 0, hi: 2_000_000 },
            reorder_window: 0,
            partitioned: false,
            bandwidth_bytes_per_ms: None,
            mtu_bytes: None,
        }
    }
}

/// A node of the network graph.
#[derive(Debug, Clone, Copy, PartialEq, Eq, Structural)]
pub struct NetNode {
    pub id: NodeId,
}

/// A directed link of the network graph.
#[derive(Debug, Clone, Copy, PartialEq, Eq, Structural)]
pub struct NetLink {
    pub id: LinkId,
    pub src: NodeId,
    pub dst: NodeId,
    pub faults: LinkFaultModel,
}

/// Ways to specify the initial network graph.
#[derive(Debug, Clone)]
pub enum TopologySpec {
    /// Every node is connected to every other node.
    FullMesh,
    /// Nodes form a cycle, with links both ways between neighbours.
    Ring,
    /// Every other node is connected to a central hub, both ways.
    Star { hub: NodeId },
    /// A k-ary tree, with links both ways between parent and child.
    KaryTree { k: usize },
    /// A graph given by an explicit list of directed edges.
    FromEdges { edges: Vec<(NodeId, NodeId)> },
    /// Each ordered pair of distinct nodes gets a link with the given
    /// probability.
    ErdosRenyi { p: Bernoulli },
}

/// Whether a topology specification is valid for a world of `n` nodes.
pub open spec fn spec_topology_ok(n: usize, spec: TopologySpec) -> bool {
    match spec {
        TopologySpec::FullMesh => true,
        TopologySpec::Ring => true,
        TopologySpec::Star { hub } => n == 0 || hub < n,
        TopologySpec::KaryTree { k } => 1 <= k <= 0xffff,
        TopologySpec::FromEdges { edges } => forall|i: int|
            0 <= i < edges@.len() ==> (#[trigger] edges@[i]).0 < n && edges@[i].1 < n,
        TopologySpec::ErdosRenyi { p } => true,
    }
}

/// Checks a topology specification against a node count, matching
/// `spec_topology_ok`.
pub fn topology_ok(n: usize, spec: &TopologySpec) -> (r: bool)
    ensures
        r == spec_topology_ok(n, *spec),
{
    match spec {
        TopologySpec::FullMesh => true,
        TopologySpec::Ring => true,
        TopologySpec::Star { hub } => n == 0 || (*hub as usize) < n,
        TopologySpec::KaryTree { k } => 1 <= *k && *k <= 0xffff,
        TopologySpec::FromEdges { edges } => {
            let m = edges.len();
            let mut i: usize = 0;
            let mut ok = true;
            while i < m
                invariant
                    m == edges@.len(),
                    0 <= i <= m,
                    ok == (forall|j: int|
                        0 <= j < i ==> (#[trigger] edges@[j]).0 < n && edges@[j].1 < n),
                decreases m - i,
            {
                let (s, d) = edges[i];
                if !((s as usize) < n && (d as usize) < n) {
                    ok = false;
                }
                i = i + 1;
            }
            ok
        },
        TopologySpec::ErdosRenyi { p: _ } => true,
    }
}

/// The sequence of links with every partition flag cleared and everything
/// else as it was.
pub open spec fn spec_healed(s: Seq<NetLink>) -> Seq<NetLink> {
    Seq::new(
        s.len(),
        |i: int|
            NetLink {
                faults: LinkFaultModel { partitioned: false, ..s[i].faults },
                ..s[i]
            },
    )
}

/// The first partition group holding a node, or -1 when no group does.
pub open spec fn spec_group_of(sets: Seq<Seq<NodeId>>, n: NodeId) -> int
    decreases sets.len(),
{
    if sets.len() == 0 {
        -1
    } else if sets[0].contains(n) {
        0
    } else {
        let r = spec_group_of(sets.drop_first(), n);
        if r == -1 {
            -1
        } else {
            r + 1
        }
    }
}

/// Whether a link from `src` to `dst` crosses two different partition
/// groups. Links with an endpoint in no group are unaffected.
pub open spec fn spec_crossing(sets: Seq<Seq<NodeId>>, src: NodeId, dst: NodeId) -> bool {
    let gs = spec_group_of(sets, src);
    let gd = spec_group_of(sets, dst);
    gs >= 0 && gd >= 0 && gs != gd
}

/// The sequence of links with the partition flag raised on every link that
/// crosses groups, and everything else as it was.
pub open spec fn spec_partitioned(s: Seq<NetLink>, sets: Seq<Seq<NodeId>>) -> Seq<NetLink> {
    Seq::new(
        s.len(),
        |i: int|
            NetLink {
                faults: LinkFaultModel {
                    partitioned: s[i].faults.partitioned || spec_crossing(sets, s[i].src, s[i].dst),
                    ..s[i].faults
                },
                ..s[i]
            },
    )
}

/// Healing a healed network changes nothing: applying `HealPartition`
/// twice equals applying it once.
pub proof fn lemma_heal_idempotent(s: Seq<NetLink>)
    ensures
        spec_healed(spec_healed(s)) =~= spec_healed(s),
{
}

/// The main network state container.
#[derive(Debug)]
pub struct Net {
    /// The links, indexed by their stable id: `links[i].id == i`.
    pub links: Vec<NetLink>,
    /// How many nodes the world has; every link endpoint is below this.
    pub num_nodes: usize,
}

impl Net {
    /// Well-formed: link ids equal their indices and endpoints are in
    /// range.
    pub open spec fn wf(self) -> bool {
        forall|i: int|
            0 <= i < self.links.len() ==> (#[trigger] self.links[i]).id == i
                && self.links[i].src < self.num_nodes && self.links[i].dst < self.num_nodes
    }

    /// Builds the initial network from a topology specification. Link ids
    /// are assigned in construction order, so the same specification
    /// always yields the same graph (up to the draws a random topology
    /// makes). Every link starts with the default fault model.
    pub fn from_topology(num_nodes: usize, spec: &TopologySpec, rng: &mut MasterRng) -> (net: Net)
        requires
            num_nodes <= 0xffff_ffff,
            spec_topology_ok(num_nodes, *spec),
        ensures
            net.wf(),
            net.num_nodes == num_nodes,
            forall|i: int|
                0 <= i < net.links.len() ==> (#[trigger] net.links[i]).faults
                    == LinkFaultModel::spec_default(),
            *spec is FullMesh ==> net.links.len() == num_nodes * (num_nodes - 1) && (forall|
                s: NodeId,
                d: NodeId,
            |
                s < num_nodes && d < num_nodes && s != d ==> #[trigger] spec_has_link(
                    net.links@,
                    s,
                    d,
                )),
    {
        let edges = topology_edges(num_nodes, spec, rng);
        let mut links: Vec<NetLink> = Vec::new();
        let n_edges = edges.len();
        let mut i: usize = 0;
        while i < n_edges
            invariant
                n_edges == edges@.len(),
                0 <= i <= n_edges,
                links@.len() == i,
                forall|j: int|
                    0 <= j < i ==> (#[trigger] links@[j]).id == j && links@[j].src == edges@[j].0
                        && links@[j].dst == edges@[j].1 && links@[j].faults
                        == LinkFaultModel::spec_default(),
            decreases n_edges - i,
        {
            let (s, d) = edges[i];
            links.push(NetLink { id: i as u64, src: s, dst: d, faults: LinkFaultModel::default() });
            i = i + 1;
        }
        proof {
            assert forall|s: NodeId, d: NodeId|
                s < num_nodes && d < num_nodes && s != d && *spec is FullMesh implies spec_has_link(
                links@,
                s,
                d,
            ) by {
                assert(spec_has_edge(edges@, s, d));
                let j = choose|j: int|
                    0 <= j < edges@.len() && (#[trigger] edges@[j]).0 == s && edges@[j].1 == d;
                assert(links@[j].src == s && links@[j].dst == d);
            }
        }
        Net { links, num_nodes }
    }

    /// The peers a node can reach: the destinations of its outgoing
    /// links, in link order.
    pub fn peers_of(&self, nid: NodeId) -> (peers: Vec<NodeId>)
        ensures
            forall|i: int|
                0 <= i < peers@.len() ==> spec_has_link(self.links@, nid, #[trigger] peers@[i]),
            forall|j: int|
                0 <= j < self.links@.len() && (#[trigger] self.links@[j]).src == nid
                    ==> peers@.contains(self.links@[j].dst),
    {
        let mut peers: Vec<NodeId> = Vec::new();
        let n = self.links.len();
        let mut i: usize = 0;
        while i < n
            invariant
                n == self.links@.len(),
                0 <= i <= n,
                forall|m: int|
                    0 <= m < peers@.len() ==> spec_has_link(self.links@, nid, #[trigger] peers@[m]),
                forall|j: int|
                    0 <= j < i && (#[trigger] self.links@[j]).src == nid ==> peers@.contains(
                        self.links@[j].dst,
                    ),
            decreases n - i,
        {
            if self.links[i].src == nid {
                let ghost before = peers@;
                peers.push(self.links[i].dst);
                proof {
                    assert(spec_has_link(self.links@, nid, self.links@[i as int].dst));
                    assert(peers@[before.len() as int] == self.links@[i as int].dst);
                    assert forall|j: int|
                        0 <= j < i + 1 && (#[trigger] self.links@[j]).src == nid
                            implies peers@.contains(self.links@[j].dst) by {
                        if j < i {
                            let m = choose|m: int|
                                0 <= m < before.len() && before[m] == self.links@[j].dst;
                            assert(peers@[m] == self.links@[j].dst);
                        } else {
                            assert(peers@[before.len() as int] == self.links@[j].dst);
                        }
                    }
                }
            }
            i = i + 1;
        }
        peers
    }

    /// The index of the first link from `src` to `dst`, if any.
    pub fn find_link(&self, src: NodeId, dst: NodeId) -> (r: Option<usize>)
        ensures
            match r {
                Some(i) => i < self.links@.len() && self.links@[i as int].src == src
                    && self.links@[i as int].dst == dst && (forall|j: int|
                    0 <= j < i ==> !((#[trigger] self.links@[j]).src == src && self.links@[j].dst
                        == dst)),
                None => !spec_has_link(self.links@, src, dst),
            },
    {
        let n = self.links.len();
        let mut i: usize = 0;
        while i < n
            invariant
                n == self.links@.len(),
                0 <= i <= n,
                forall|j: int|
                    0 <= j < i ==> !((#[trigger] self.links@[j]).src == src && self.links@[j].dst
                        == dst),
            decreases n - i,
        {
            if self.links[i].src == src && self.links[i].dst == dst {
                return Some(i);
            }
            i = i + 1;
        }
        None
    }

    /// Raises the partition flag on every link that crosses two different
    /// groups; links inside one group, or touching a node in no group,
    /// are unaffected. Flags already raised stay raised.
    pub fn set_partition(&mut self, sets: &Vec<Vec<NodeId>>)
        ensures
            final(self).num_nodes == old(self).num_nodes,
            final(self).links@ == spec_partitioned(old(self).links@, sets.deep_view()),
            old(self).wf() ==> final(self).wf(),
    {
        let n = self.links.len();
        let mut i: usize = 0;
        while i < n
            invariant
                n == old(self).links@.len(),
                self.links@.len() == n,
                self.num_nodes == old(self).num_nodes,
                0 <= i <= n,
                forall|j: int| i <= j < n ==> self.links@[j] == old(self).links@[j],
                forall|j: int|
                    0 <= j < i ==> self.links@[j] == spec_partitioned(
                        old(self).links@,
                        sets.deep_view(),
                    )[j],
            decreases n - i,
        {
            let src = self.links[i].src;
            let dst = self.links[i].dst;
            let crossing = is_crossing(sets, src, dst);
            if crossing {
                let link = &mut self.links[i];
                link.faults.partitioned = true;
            }
            i = i + 1;
        }
        proof {
            assert(self.links@ =~= spec_partitioned(old(self).links@, sets.deep_view()));
        }
    }

    /// Clears every partition flag.
    pub fn heal_partition(&mut self)
        ensures
            final(self).num_nodes == old(self).num_nodes,
            final(self).links@ == spec_healed(old(self).links@),
            old(self).wf() ==> final(self).wf(),
    {
        let n = self.links.len();
        let mut i: usize = 0;
        while i < n
            invariant
                n == old(self).links@.len(),
                self.links@.len() == n,
                self.num_nodes == old(self).num_nodes,
                0 <= i <= n,
                forall|j: int| i <= j < n ==> self.links@[j] == old(self).links@[j],
                forall|j: int| 0 <= j < i ==> self.links@[j] == spec_healed(old(self).links@)[j],
            decreases n - i,
        {
            let link = &mut self.links[i];
            link.faults.partitioned = false;
            i = i + 1;
        }
        proof {
            assert(self.links@ =~= spec_healed(old(self).links@));
        }
    }

    /// Replaces one parameter of a link's fault model; false when no such
    /// link exists.
    pub fn update_link(&mut self, link_id: LinkId, change: crate::events::LinkModelChange) -> (r:
        bool)
        ensures
            final(self).num_nodes == old(self).num_nodes,
            r == (link_id < old(self).links@.len()),
            !r ==> final(self).links@ == old(self).links@,
            r ==> final(self).links@.len() == old(self).links@.len() && (forall|j: int|
                0 <= j < old(self).links@.len() && j != link_id ==> final(self).links@[j] == old(
                    self,
                ).links@[j]) && final(self).links@[link_id as int] == spec_apply_change(
                old(self).links@[link_id as int],
                change,
            ),
            old(self).wf() ==> final(self).wf(),
    {
        if link_id >= self.links.len() as u64 {
            return false;
        }
        let i = link_id as usize;
        let link = &mut self.links[i];
        match change {
            crate::events::LinkModelChange::SetDelay(d) => {
                link.faults.base_delay = d;
            },
            crate::events::LinkModelChange::SetDrop(p) => {
                link.faults.drop = p;
            },
            crate::events::LinkModelChange::SetDuplicate(p) => {
                link.faults.duplicate = p;
            },
            crate::events::LinkModelChange::SetCorrupt(p) => {
                link.faults.corrupt = p;
            },
        }
        true
    }
}

/// One link with one parameter of its fault model replaced.
pub open spec fn spec_apply_change(
    l: NetLink,
    change: crate::events::LinkModelChange,
) -> NetLink {
    let f = l.faults;
    match change {
        crate::events::LinkModelChange::SetDelay(d) => NetLink {
            faults: LinkFaultModel { base_delay: d, ..f },
            ..l
        },
        crate::events::LinkModelChange::SetDrop(p) => NetLink {
            faults: LinkFaultModel { drop: p, ..f },
            ..l
        },
        crate::events::LinkModelChange::SetDuplicate(p) => NetLink {
            faults: LinkFaultModel { duplicate: p, ..f },
            ..l
        },
        crate::events::LinkModelChange::SetCorrupt(p) => NetLink {
            faults: LinkFaultModel { corrupt: p, ..f },
            ..l
        },
    }
}

/// Whether some edge of the list goes from `a` to `b`.
pub open spec fn spec_has_edge(s: Seq<(NodeId, NodeId)>, a: NodeId, b: NodeId) -> bool {
    exists|i: int| 0 <= i < s.len() && (#[trigger] s[i]).0 == a && s[i].1 == b
}

/// Whether some link goes from `src` to `dst`.
pub open spec fn spec_has_link(s: Seq<NetLink>, src: NodeId, dst: NodeId) -> bool {
    exists|i: int| 0 <= i < s.len() && (#[trigger] s[i]).src == src && s[i].dst == dst
}

/// The first group strictly before `g` never holds `n`; if `g` holds it,
/// it is the first.
proof fn lemma_group_found(sets: Seq<Seq<NodeId>>, n: NodeId, g: int)
    requires
        0 <= g < sets.len(),
        sets[g].contains(n),
        forall|j: int| 0 <= j < g ==> !(#[trigger] sets[j]).contains(n),
    ensures
        spec_group_of(sets, n) == g,
    decreases g,
{
    if g > 0 {
        lemma_group_found(sets.drop_first(), n, g - 1);
    }
}

/// A node in no group has no group index.
proof fn lemma_group_none(sets: Seq<Seq<NodeId>>, n: NodeId)
    requires
        forall|j: int| 0 <= j < sets.len() ==> !(#[trigger] sets[j]).contains(n),
    ensures
        spec_group_of(sets, n) == -1,
    decreases sets.len(),
{
    if sets.len() > 0 {
        lemma_group_none(sets.drop_first(), n);
    }
}

/// Finds the first partition group holding a node, matching
/// `spec_group_of`.
fn find_group(sets: &Vec<Vec<NodeId>>, n: NodeId) -> (r: Option<usize>)
    ensures
        match r {
            Some(g) => spec_group_of(sets.deep_view(), n) == g,
            None => spec_group_of(sets.deep_view(), n) == -1,
        },
{
    let count = sets.len();
    let mut g: usize = 0;
    while g < count
        invariant
            count == sets@.len(),
            0 <= g <= count,
            forall|j: int| 0 <= j < g ==> !(#[trigger] sets.deep_view()[j]).contains(n),
        decreases count - g,
    {
        let set = &sets[g];
        let m = set.len();
        let mut k: usize = 0;
        let mut found = false;
        while k < m
            invariant
                m == set@.len(),
                0 <= k <= m,
                found == (exists|t: int| 0 <= t < k && set@[t] == n),
            decreases m - k,
        {
            if set[k] == n {
                found = true;
            }
            k = k + 1;
        }
        proof {
            assert(sets.deep_view()[g as int] =~= sets@[g as int]@);
            assert(found == sets.deep_view()[g as int].contains(n)) by {
                if found {
                    let t = choose|t: int| 0 <= t < set@.len() && set@[t] == n;
                    assert(sets.deep_view()[g as int][t] == n);
                }
                if sets.deep_view()[g as int].contains(n) {
                    let t = choose|t: int|
                        0 <= t < sets.deep_view()[g as int].len() && sets.deep_view()[g as int][t]
                            == n;
                    assert(set@[t] == n);
                }
            }
        }
        if found {
            proof {
                lemma_group_found(sets.deep_view(), n, g as int);
            }
            return Some(g);
        }
        g = g + 1;
    }
    proof {
        lemma_group_none(sets.deep_view(), n);
    }
    None
}

/// Whether a link between the two nodes crosses two different partition
/// groups, matching `spec_crossing`.
fn is_crossing(sets: &Vec<Vec<NodeId>>, src: NodeId, dst: NodeId) -> (r: bool)
    ensures
        r == spec_crossing(sets.deep_view(), src, dst),
{
    let gs = find_group(sets, src);
    let gd = find_group(sets, dst);
    match (gs, gd) {
        (Some(a), Some(b)) => a != b,
        _ => false,
    }
}

/// The edge list of a topology, in the deterministic construction order
/// that fixes link ids.
fn topology_edges(n: usize, spec: &TopologySpec, rng: &mut MasterRng) -> (edges: Vec<
    (NodeId, NodeId),
>)
    requires
        n <= 0xffff_ffff,
        spec_topology_ok(n, *spec),
    ensures
        forall|i: int|
            0 <= i < edges@.len() ==> (#[trigger] edges@[i]).0 < n && edges@[i].1 < n,
        *spec is FullMesh ==> edges@.len() == n * (n - 1) && (forall|s: NodeId, d: NodeId|
            s < n && d < n && s != d ==> #[trigger] spec_has_edge(edges@, s, d)),
{
    match spec {
        TopologySpec::FullMesh => full_mesh_edges(n),
        TopologySpec::Ring => {
            let mut edges: Vec<(NodeId, NodeId)> = Vec::new();
            if n == 2 {
                edges.push((0, 1));
                edges.push((1, 0));
            } else if n >= 3 {
                let mut i: usize = 0;
                while i < n
                    invariant
                        3 <= n <= 0xffff_ffff,
                        0 <= i <= n,
                        forall|j: int|
                            0 <= j < edges@.len() ==> (#[trigger] edges@[j]).0 < n && edges@[j].1
                                < n,
                    decreases n - i,
                {
                    let next: usize = if i + 1 == n {
                        0
                    } else {
                        i + 1
                    };
                    edges.push((i as u32, next as u32));
                    edges.push((next as u32, i as u32));
                    i = i + 1;
                }
            }
            edges
        },
        TopologySpec::Star { hub } => {
            let mut edges: Vec<(NodeId, NodeId)> = Vec::new();
            let mut i: usize = 0;
            while i < n
                invariant
                    n == 0 || *hub < n,
                    n <= 0xffff_ffff,
                    0 <= i <= n,
                    forall|j: int|
                        0 <= j < edges@.len() ==> (#[trigger] edges@[j]).0 < n && edges@[j].1 < n,
                decreases n - i,
            {
                if (i as u32) != *hub {
                    edges.push((*hub, i as u32));
                    edges.push((i as u32, *hub));
                }
                i = i + 1;
            }
            edges
        },
        TopologySpec::KaryTree { k } => {
            let mut edges: Vec<(NodeId, NodeId)> = Vec::new();
            let mut i: usize = 0;
            while i < n
                invariant
                    1 <= *k <= 0xffff,
                    n <= 0xffff_ffff,
                    0 <= i <= n,
                    forall|j: int|
                        0 <= j < edges@.len() ==> (#[trigger] edges@[j]).0 < n && edges@[j].1 < n,
                decreases n - i,
            {
                let mut c: usize = 1;
                while c <= *k
                    invariant
                        1 <= *k <= 0xffff,
                        n <= 0xffff_ffff,
                        i < n,
                        1 <= c <= *k + 1,
                        forall|j: int|
                            0 <= j < edges@.len() ==> (#[trigger] edges@[j]).0 < n && edges@[j].1
                                < n,
                    decreases *k + 1 - c,
                {
                    proof {
                        assert((i as u64) * (k as u64) + (c as u64) < 0xffff_ffff_ffff_ffffu64)
                            by (nonlinear_arith)
                            requires
                                i < 0xffff_ffffu64,
                                k <= 0xffffu64,
                                c <= 0x1_0000u64,
                        ;
                    }
                    let child: u64 = (i as u64) * (*k as u64) + (c as u64);
                    if child < n as u64 {
                        edges.push((i as u32, child as u32));
                        edges.push((child as u32, i as u32));
                    }
                    c = c + 1;
                }
                i = i + 1;
            }
            edges
        },
        TopologySpec::FromEdges { edges } => {
            let m = edges.len();
            let mut out: Vec<(NodeId, NodeId)> = Vec::new();
            let mut i: usize = 0;
            while i < m
                invariant
                    m == edges@.len(),
                    0 <= i <= m,
                    forall|j: int|
                        0 <= j < edges@.len() ==> (#[trigger] edges@[j]).0 < n && edges@[j].1 < n,
                    forall|j: int|
                        0 <= j < out@.len() ==> (#[trigger] out@[j]).0 < n && out@[j].1 < n,
                decreases m - i,
            {
                let (s, d) = edges[i];
                out.push((s, d));
                i = i + 1;
            }
            out
        },
        TopologySpec::ErdosRenyi { p } => {
            let mut edges: Vec<(NodeId, NodeId)> = Vec::new();
            let mut i: usize = 0;
            while i < n
                invariant
                    n <= 0xffff_ffff,
                    0 <= i <= n,
                    forall|j: int|
                        0 <= j < edges@.len() ==> (#[trigger] edges@[j]).0 < n && edges@[j].1 < n,
                decreases n - i,
            {
                let mut j: usize = 0;
                while j < n
                    invariant
                        n <= 0xffff_ffff,
                        i < n,
                        0 <= j <= n,
                        forall|m2: int|
                            0 <= m2 < edges@.len() ==> (#[trigger] edges@[m2]).0 < n
                                && edges@[m2].1 < n,
                    decreases n - j,
                {
                    if i != j {
                        let draw = rng.draw(Site::NetTopology);
                        if p.hits(draw) {
                            edges.push((i as u32, j as u32));
                        }
                    }
                    j = j + 1;
                }
                i = i + 1;
            }
            edges
        },
    }
}

/// The complete list of ordered pairs of distinct nodes, row by row.
fn full_mesh_edges(n: usize) -> (edges: Vec<(NodeId, NodeId)>)
    requires
        n <= 0xffff_ffff,
    ensures
        edges@.len() == n * (n - 1),
        forall|i: int|
            0 <= i < edges@.len() ==> (#[trigger] edges@[i]).0 < n && edges@[i].1 < n
                && edges@[i].0 != edges@[i].1,
        forall|s: NodeId, d: NodeId|
            s < n && d < n && s != d ==> #[trigger] spec_has_edge(edges@, s, d),
{
    let mut edges: Vec<(NodeId, NodeId)> = Vec::new();
    let mut i: usize = 0;
    if n == 0 {
        return edges;
    }
    while i < n
        invariant
            1 <= n <= 0xffff_ffff,
            0 <= i <= n,
            edges@.len() == i * (n - 1),
            forall|j: int|
                0 <= j < edges@.len() ==> (#[trigger] edges@[j]).0 < n && edges@[j].1 < n
                    && edges@[j].0 != edges@[j].1,
            forall|s: NodeId, d: NodeId|
                s < i && d < n && s != d ==> #[trigger] spec_has_edge(edges@, s, d),
        decreases n - i,
    {
        let mut j: usize = 0;
        while j < n
            invariant
                1 <= n <= 0xffff_ffff,
                i < n,
                0 <= j <= n,
                edges@.len() == i * (n - 1) + (if j <= i {
                    j as int
                } else {
                    j - 1
                }),
                forall|m2: int|
                    0 <= m2 < edges@.len() ==> (#[trigger] edges@[m2]).0 < n && edges@[m2].1 < n
                        && edges@[m2].0 != edges@[m2].1,
                forall|s: NodeId, d: NodeId|
                    s < i && d < n && s != d ==> #[trigger] spec_has_edge(edges@, s, d),
                forall|d: NodeId|
                    d < j && d != i ==> #[trigger] spec_has_edge(edges@, i as NodeId, d),
            decreases n - j,
        {
            if i != j {
                let ghost before = edges@;
                edges.push((i as u32, j as u32));
                proof {
                    assert(edges@[before.len() as int] == (i as u32, j as u32));
                    assert forall|s: NodeId, d: NodeId|
                        s < i && d < n && s != d implies #[trigger] spec_has_edge(
                        edges@,
                        s,
                        d,
                    ) by {
                        assert(spec_has_edge(before, s, d));
                        let e = choose|e: int|
                            0 <= e < before.len() && (#[trigger] before[e]).0 == s && before[e].1
                                == d;
                        assert(edges@[e].0 == s && edges@[e].1 == d);
                        assert(spec_has_edge(edges@, s, d));
                    }
                    assert forall|d: NodeId|
                        d < j + 1 && d != i implies #[trigger] spec_has_edge(
                        edges@,
                        i as NodeId,
                        d,
                    ) by {
                        if d < j {
                            assert(spec_has_edge(before, i as NodeId, d));
                            let e = choose|e: int|
                                0 <= e < before.len() && (#[trigger] before[e]).0 == i
                                    && before[e].1 == d;
                            assert(edges@[e].0 == i && edges@[e].1 == d);
                            assert(spec_has_edge(edges@, i as NodeId, d));
                        } else {
                            assert(edges@[before.len() as int].0 == i && edges@[
                                before.len() as int
                            ].1 == d);
                            assert(spec_has_edge(edges@, i as NodeId, d));
                        }
                    }
                }
            }
            j = j + 1;
        }
        proof {
            assert(edges@.len() == i * (n - 1) + (n - 1));
            assert((i + 1) * (n - 1) == i * (n - 1) + (n - 1)) by (nonlinear_arith);
            assert forall|s: NodeId, d: NodeId|
                s < i + 1 && d < n && s != d implies #[trigger] spec_has_edge(edges@, s, d) by {
                if s < i {
                    assert(spec_has_edge(edges@, s, d));
                } else {
                    assert(s == i);
                    assert(spec_has_edge(edges@, i as NodeId, d));
                }
            }
        }
        i = i + 1;
    }
    edges
}

/// Why the send path did not schedule a delivery, or when it did.
#[derive(Debug, Clone, Copy, PartialEq, Eq, Structural)]
pub enum SendOutcome {
    /// No link leads from the source to the destination.
    NoLink,
    /// The link is partitioned: dropped synchronously, no draw made.
    DroppedPartition,
    /// The drop trial hit.
    DroppedProbability,
    /// The payload exceeds the link's maximum transfer unit.
    ExceedsMtu { mtu: usize },
    /// Delivery planned: the first copy at `first_at`, and a duplicate at
    /// `dup_at` when the duplicate trial hit.
    Scheduled { link_id: LinkId, first_at: SimTime, dup_at: Option<SimTime> },
}

impl Net {
    /// Runs the fault model of the link from `src` to `dst` for one
    /// message of `payload_len` bytes at time `clock`, and decides when
    /// deliveries happen. The order of draws is fixed: drop, base delay,
    /// jitter, duplicate, and then the duplicate's delay.
    pub fn plan_send(
        &self,
        rng: &mut MasterRng,
        clock: SimTime,
        src: NodeId,
        dst: NodeId,
        payload_len: usize,
    ) -> (r: SendOutcome)
        requires
            self.wf(),
        ensures
            match r {
                SendOutcome::NoLink => !spec_has_link(self.links@, src, dst) && *final(rng) == *old(
                    rng,
                ),
                SendOutcome::DroppedPartition => spec_has_link(self.links@, src, dst) && *final(rng)
                    == *old(rng),
                SendOutcome::DroppedProbability => spec_has_link(self.links@, src, dst) && (exists|
                    i: int,
                |
                    0 <= i < self.links@.len() && (#[trigger] self.links@[i]).src == src
                        && self.links@[i].dst == dst && !self.links@[i].faults.partitioned
                        && self.links@[i].faults.drop.ppm > 0),
                SendOutcome::ExceedsMtu { mtu } => payload_len > mtu && spec_has_link(
                    self.links@,
                    src,
                    dst,
                ) && spec_link_for(self.links@, src, dst).faults.mtu_bytes == Some(mtu)
                    && *final(rng) == *old(rng),
                SendOutcome::Scheduled { link_id, first_at, dup_at } => {
                    let faults = self.links@[link_id as int].faults;
                    &&& link_id < self.links@.len()
                    &&& self.links@[link_id as int].src == src
                    &&& self.links@[link_id as int].dst == dst
                    &&& !faults.partitioned
                    &&& (faults.mtu_bytes matches Some(m) ==> payload_len <= m)
                    &&& first_at >= clock
                    &&& (exists|b: u64, j: u64|
                        first_at == time_add(
                            time_add(clock, spec_sample_delay(b, faults.base_delay) as SimTime),
                            spec_sample_delay(j, faults.jitter) as SimTime,
                        ))
                    &&& match dup_at {
                        Some(t) => t >= clock && faults.duplicate.ppm > 0 && (exists|d: u64|
                            t == time_add(
                                clock,
                                spec_sample_delay(d, faults.base_delay) as SimTime,
                            )),
                        None => faults.duplicate.ppm < crate::prob::PROB_ONE,
                    }
                },
            },
            ({
                let l = spec_link_for(self.links@, src, dst);
                spec_has_link(self.links@, src, dst) && !l.faults.partitioned
                    && l.faults.drop.ppm == 0 && (match l.faults.mtu_bytes {
                    Some(m) => payload_len <= m,
                    None => true,
                }) ==> r is Scheduled
            }),
    {
        let idx = match self.find_link(src, dst) {
            Some(i) => i,
            None => {
                return SendOutcome::NoLink;
            },
        };
        proof {
            lemma_link_for_first(self.links@, src, dst, idx as int);
        }
        let link = &self.links[idx];
        if link.faults.partitioned {
            return SendOutcome::DroppedPartition;
        }
        match link.faults.mtu_bytes {
            Some(mtu) => {
                if payload_len > mtu {
                    return SendOutcome::ExceedsMtu { mtu };
                }
            },
            None => {},
        }
        let drop_draw = rng.draw(Site::NetDrop);
        if link.faults.drop.hits(drop_draw) {
            return SendOutcome::DroppedProbability;
        }
        let base_draw = rng.draw(Site::NetDelayBase);
        let base = sample_delay(base_draw, &link.faults.base_delay);
        let jitter_draw = rng.draw(Site::NetDelayJitter);
        let jitter = sample_delay(jitter_draw, &link.faults.jitter);
        let first_at = time_add_exec(time_add_exec(clock, base as u128), jitter as u128);
        proof {
            assert(first_at == time_add(
                time_add(clock, spec_sample_delay(base_draw, link.faults.base_delay) as SimTime),
                spec_sample_delay(jitter_draw, link.faults.jitter) as SimTime,
            ));
        }
        let dup_draw = rng.draw(Site::NetDuplicate);
        let dup_at: Option<SimTime> = if link.faults.duplicate.hits(dup_draw) {
            let dup_delay_draw = rng.draw(Site::NetDelayDup);
            let dup_delay = sample_delay(dup_delay_draw, &link.faults.base_delay);
            let t = time_add_exec(clock, dup_delay as u128);
            proof {
                assert(t == time_add(
                    clock,
                    spec_sample_delay(dup_delay_draw, link.faults.base_delay) as SimTime,
                ));
            }
            Some(t)
        } else {
            None
        };
        SendOutcome::Scheduled { link_id: link.id, first_at, dup_at }
    }
}

/// The first link from `src` to `dst`.
pub open spec fn spec_link_for(s: Seq<NetLink>, src: NodeId, dst: NodeId) -> NetLink {
    s[spec_link_index(s, src, dst)]
}

/// The index of the first link from `src` to `dst`.
pub open spec fn spec_link_index(s: Seq<NetLink>, src: NodeId, dst: NodeId) -> int
    decreases s.len(),
{
    if s.len() == 0 {
        0
    } else if s[0].src == src && s[0].dst == dst {
        0
    } else {
        spec_link_index(s.drop_first(), src, dst) + 1
    }
}

proof fn lemma_link_for_first(s: Seq<NetLink>, src: NodeId, dst: NodeId, i: int)
    requires
        0 <= i < s.len(),
        s[i].src == src,
        s[i].dst == dst,
        forall|j: int| 0 <= j < i ==> !((#[trigger] s[j]).src == src && s[j].dst == dst),
    ensures
        spec_link_index(s, src, dst) == i,
        spec_link_for(s, src, dst) == s[i],
    decreases s.len(),
{
    if i > 0 {
        lemma_link_for_first(s.drop_first(), src, dst, i - 1);
    }
}

} // verus!
