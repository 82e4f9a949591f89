//! The scenario: a pre-parsed description of an experiment, its
//! validation rules, and the translation of its directives into queued
//! fault events.

use vstd::prelude::*;
use crate::envelope::ProtoTag;
use crate::events::{Event, EventDiscriminant, FaultEventInternal, LinkModelChange, Queued};
use crate::ids::{LinkId, NodeId};
use crate::net::{spec_topology_ok, topology_ok, TopologySpec};
use crate::node::copy_node_ids;
use crate::prob::{Bernoulli, DelaySpec, PROB_ONE};
use crate::sim::Simulation;
use crate::store::StoreFaultKind;
use crate::time::{time_add, time_add_exec, SimTime, MAX_SIM_TIME};

verus! {

/// The initial state of the world: how many nodes, hosting which
/// protocol.
#[derive(Debug, Clone, Copy, PartialEq, Eq, Structural)]
pub struct InitialSpec {
    pub nodes: usize,
    pub proto: ProtoTag,
}

/// An action that mutates the world, usually to inject a fault.
#[derive(Debug, Clone)]
pub enum Action {
    Partition { sets: Vec<Vec<NodeId>> },
    HealPartition,
    Crash { node: NodeId, duration: SimTime },
    Restart { node: NodeId },
    LinkDelay { link: LinkId, dist: DelaySpec },
    LinkDrop { link: LinkId, p: Bernoulli },
    BroadcastBytes { payload_hex: String, proto_tag: Option<ProtoTag> },
    ClockSkew { node: NodeId, skew: i128 },
    StoreFault { node: NodeId, kind: StoreFaultKind, rate: Bernoulli },
    ByzantineFlip { node: NodeId, enabled: bool },
    Custom { name: String, args: String },
}

impl Action {
    /// The node the action is aimed at, if any.
    pub fn node_id(&self) -> (r: Option<NodeId>)
        ensures
            r == self.spec_node_id(),
    {
        match self {
            Action::Crash { node, .. } => Some(*node),
            Action::Restart { node } => Some(*node),
            Action::ClockSkew { node, .. } => Some(*node),
            Action::StoreFault { node, .. } => Some(*node),
            Action::ByzantineFlip { node, .. } => Some(*node),
            _ => None,
        }
    }

    pub open spec fn spec_node_id(self) -> Option<NodeId> {
        match self {
            Action::Crash { node, .. } => Some(node),
            Action::Restart { node } => Some(node),
            Action::ClockSkew { node, .. } => Some(node),
            Action::StoreFault { node, .. } => Some(node),
            Action::ByzantineFlip { node, .. } => Some(node),
            _ => None,
        }
    }
}

/// A directive schedules an action on the timeline: at an absolute time,
/// after an offset from the running relative base, or repeatedly.
#[derive(Debug, Clone)]
pub enum Directive {
    At(SimTime, Action),
    Every { period: SimTime, repeats: u64, action: Action },
    After { offset: SimTime, action: Action },
}

impl Directive {
    /// The directive's action.
    pub fn action(&self) -> (a: &Action)
        ensures
            a == self.spec_action(),
    {
        match self {
            Directive::At(_, action) => action,
            Directive::Every { action, .. } => action,
            Directive::After { action, .. } => action,
        }
    }

    pub open spec fn spec_action(self) -> Action {
        match self {
            Directive::At(_, action) => action,
            Directive::Every { action, .. } => action,
            Directive::After { action, .. } => action,
        }
    }
}

/// A pre-parsed scenario: the initial world, the topology, and the
/// timeline of directives.
#[derive(Debug, Clone)]
pub struct Scenario {
    pub name: String,
    pub seed: Option<u64>,
    pub initial: InitialSpec,
    pub topology: TopologySpec,
    pub directives: Vec<Directive>,
    pub stop_at: Option<SimTime>,
}

/// Whether a partition grouping is valid for `n` nodes: groups are
/// non-empty and disjoint, every member is a node, and the union is a
/// strict subset of all nodes.
pub open spec fn spec_partition_ok(sets: Seq<Seq<NodeId>>, n: usize) -> bool {
    &&& forall|i: int| 0 <= i < sets.len() ==> (#[trigger] sets[i]).len() > 0
    &&& forall|i: int, a: int|
        0 <= i < sets.len() && 0 <= a < sets[i].len() ==> (#[trigger] sets[i][a]) < n
    &&& forall|i: int, a: int, j: int, b: int|
        0 <= i < sets.len() && 0 <= a < sets[i].len() && 0 <= j < sets.len() && 0 <= b
            < sets[j].len() && (i != j || a != b) ==> (#[trigger] sets[i][a]) != (
        #[trigger] sets[j][b])
    &&& spec_total_members(sets) < n
}

/// The total number of members across all groups.
pub open spec fn spec_total_members(sets: Seq<Seq<NodeId>>) -> int
    decreases sets.len(),
{
    if sets.len() == 0 {
        0
    } else {
        spec_total_members(sets.drop_last()) + sets.last().len()
    }
}

/// Whether one action passes validation for `n` nodes.
pub open spec fn spec_action_ok(a: Action, n: usize) -> bool {
    &&& (a.spec_node_id() matches Some(node) ==> node < n)
    &&& (a matches Action::Partition { sets } ==> spec_partition_ok(sets.deep_view(), n))
    &&& (a matches Action::LinkDrop { link: _, p } ==> p.wf())
    &&& (a matches Action::StoreFault { node: _, kind: _, rate } ==> rate.wf())
}

/// Whether the whole scenario passes validation: a representable node
/// count, a topology that fits it, and every directive's action valid.
pub open spec fn spec_scenario_ok(s: Scenario) -> bool {
    &&& s.initial.nodes <= 0xffff_ffff
    &&& spec_topology_ok(s.initial.nodes, s.topology)
    &&& forall|i: int|
        0 <= i < s.directives@.len() ==> spec_action_ok(
            (#[trigger] s.directives@[i]).spec_action(),
            s.initial.nodes,
        )
}

impl Scenario {
    /// Validates the scenario for logical consistency: exactly the
    /// scenarios satisfying `spec_scenario_ok` pass, and nothing is
    /// scheduled for one that does not.
    pub fn validate(&self) -> (r: Result<(), String>)
        ensures
            r is Ok <==> spec_scenario_ok(*self),
    {
        if self.initial.nodes > 0xffff_ffff {
            return Err(String::from_str("scenario: too many nodes"));
        }
        if !topology_ok(self.initial.nodes, &self.topology) {
            return Err(String::from_str("scenario: topology does not fit the node count"));
        }
        let n_dir = self.directives.len();
        let mut i: usize = 0;
        while i < n_dir
            invariant
                n_dir == self.directives@.len(),
                0 <= i <= n_dir,
                self.initial.nodes <= 0xffff_ffff,
                forall|j: int|
                    0 <= j < i ==> spec_action_ok(
                        (#[trigger] self.directives@[j]).spec_action(),
                        self.initial.nodes,
                    ),
            decreases n_dir - i,
        {
            let action = self.directives[i].action();
            match self.check_action(action) {
                Ok(u) => {},
                Err(e) => {
                    return Err(e);
                },
            }
            i = i + 1;
        }
        Ok(())
    }

    /// Checks one action against the node count, matching
    /// `spec_action_ok`.
    fn check_action(&self, action: &Action) -> (r: Result<(), String>)
        requires
            self.initial.nodes <= 0xffff_ffff,
        ensures
            r is Ok <==> spec_action_ok(*action, self.initial.nodes),
    {
        let n = self.initial.nodes;
        match action.node_id() {
            Some(node) => {
                if (node as usize) >= n {
                    return Err(String::from_str("scenario: directive aims at an unknown node"));
                }
            },
            None => {},
        }
        match action {
            Action::Partition { sets } => {
                if !check_partition(sets, n) {
                    return Err(
                        String::from_str(
                            "scenario: partition groups must be disjoint, non-empty and a strict subset of the nodes",
                        ),
                    );
                }
            },
            Action::LinkDrop { link: _, p } => {
                if p.ppm > PROB_ONE {
                    return Err(String::from_str("scenario: drop rate above one"));
                }
            },
            Action::StoreFault { node: _, kind: _, rate } => {
                if rate.ppm > PROB_ONE {
                    return Err(String::from_str("scenario: storage fault rate above one"));
                }
            },
            _ => {},
        }
        Ok(())
    }
}

/// Checks a partition grouping, matching `spec_partition_ok`.
fn check_partition(sets: &Vec<Vec<NodeId>>, n: usize) -> (r: bool)
    requires
        n <= 0xffff_ffff,
    ensures
        r == spec_partition_ok(sets.deep_view(), n),
{
    let n_sets = sets.len();
    let ghost dv = sets.deep_view();
    let mut total: u128 = 0;
    let mut i: usize = 0;
    while i < n_sets
        invariant
            n_sets == sets@.len(),
            dv == sets.deep_view(),
            n <= 0xffff_ffff,
            0 <= i <= n_sets,
            forall|j: int| 0 <= j < i ==> (#[trigger] dv[j]).len() > 0,
            forall|j: int, a: int| 0 <= j < i && 0 <= a < dv[j].len() ==> (#[trigger] dv[j][a]) < n,
            forall|j: int, a: int, j2: int, b: int|
                0 <= j < i && 0 <= a < dv[j].len() && 0 <= j2 < i && 0 <= b < dv[j2].len() && (j
                    != j2 || a != b) ==> (#[trigger] dv[j][a]) != (#[trigger] dv[j2][b]),
            total == spec_total_members(dv.subrange(0, i as int)),
            total <= 0x2_0000_0000_0000_0000u128,
        decreases n_sets - i,
    {
        let set = &sets[i];
        if set.len() == 0 {
            proof {
                assert(dv[i as int] =~= sets@[i as int]@);
                if spec_partition_ok(dv, n) {
                    assert(dv[i as int].len() > 0);
                }
            }
            return false;
        }
        if total > 0xffff_ffff {
            // More members than any node count allows: some node must
            // repeat.
            proof {
                lemma_total_many_gives_dup(dv, i as int, n);
            }
            return false;
        }
        let m = set.len();
        let mut a: usize = 0;
        while a < m
            invariant
                m == set@.len(),
                dv == sets.deep_view(),
                n_sets == sets@.len(),
                i < n_sets,
                set == sets@[i as int],
                0 <= a <= m,
                forall|j: int| 0 <= j < i ==> (#[trigger] dv[j]).len() > 0,
                forall|j: int, c: int|
                    0 <= j < i && 0 <= c < dv[j].len() ==> (#[trigger] dv[j][c]) < n,
                forall|j: int, c: int, j2: int, b: int|
                    0 <= j < i && 0 <= c < dv[j].len() && 0 <= j2 < i && 0 <= b < dv[j2].len() && (
                    j != j2 || c != b) ==> (#[trigger] dv[j][c]) != (#[trigger] dv[j2][b]),
                forall|c: int| 0 <= c < a ==> (#[trigger] dv[i as int][c]) < n,
                forall|j: int, c: int, b: int|
                    0 <= j < i && 0 <= c < dv[j].len() && 0 <= b < a ==> (#[trigger] dv[j][c]) != (
                    #[trigger] dv[i as int][b]),
                forall|c: int, b: int|
                    0 <= c < b < a ==> (#[trigger] dv[i as int][c]) != (#[trigger] dv[i as int][b]),
            decreases m - a,
        {
            let v = set[a];
            proof {
                assert(dv[i as int] =~= sets@[i as int]@);
                assert(dv[i as int][a as int] == v);
            }
            if (v as usize) >= n {
                proof {
                    if spec_partition_ok(dv, n) {
                        assert(dv[i as int][a as int] < n);
                    }
                }
                return false;
            }
            // Search every earlier member for a duplicate.
            let mut j: usize = 0;
            while j < i
                invariant
                    dv == sets.deep_view(),
                    n_sets == sets@.len(),
                    i < n_sets,
                    0 <= j <= i,
                    dv[i as int][a as int] == v,
                    a < dv[i as int].len(),
                    forall|j2: int, c: int|
                        0 <= j2 < j && 0 <= c < dv[j2].len() ==> (#[trigger] dv[j2][c]) != v,
                decreases i - j,
            {
                let earlier = &sets[j];
                let mut c: usize = 0;
                let m2 = earlier.len();
                while c < m2
                    invariant
                        dv == sets.deep_view(),
                        n_sets == sets@.len(),
                        j < i,
                        i < n_sets,
                        a < dv[i as int].len(),
                        dv[i as int][a as int] == v,
                        m2 == earlier@.len(),
                        earlier == sets@[j as int],
                        0 <= c <= m2,
                        forall|c2: int| 0 <= c2 < c ==> (#[trigger] dv[j as int][c2]) != v,
                    decreases m2 - c,
                {
                    proof {
                        assert(dv[j as int] =~= sets@[j as int]@);
                    }
                    if earlier[c] == v {
                        proof {
                            if spec_partition_ok(dv, n) {
                                assert(dv[j as int][c as int] != dv[i as int][a as int]);
                            }
                        }
                        return false;
                    }
                    c = c + 1;
                }
                j = j + 1;
            }
            let mut b: usize = 0;
            while b < a
                invariant
                    dv == sets.deep_view(),
                    n_sets == sets@.len(),
                    i < n_sets,
                    set == sets@[i as int],
                    m == set@.len(),
                    a < m,
                    dv[i as int][a as int] == v,
                    0 <= b <= a,
                    forall|c2: int| 0 <= c2 < b ==> (#[trigger] dv[i as int][c2]) != v,
                decreases a - b,
            {
                proof {
                    assert(dv[i as int] =~= sets@[i as int]@);
                }
                if set[b] == v {
                    proof {
                        assert(dv[i as int][b as int] == v);
                        if spec_partition_ok(dv, n) {
                            assert(dv[i as int][b as int] != dv[i as int][a as int]);
                        }
                    }
                    return false;
                }
                b = b + 1;
            }
            a = a + 1;
        }
        total = total + (m as u128);
        proof {
            assert(dv[i as int] =~= sets@[i as int]@);
            assert(dv.subrange(0, i + 1).drop_last() =~= dv.subrange(0, i as int));
            assert(dv.subrange(0, i + 1).last() =~= dv[i as int]);
        }
        i = i + 1;
    }
    proof {
        assert(dv.subrange(0, n_sets as int) =~= dv);
    }
    total < (n as u128)
}

/// A family of disjoint in-range groups holds at most `n` members in
/// total; more than that forces a duplicate or an out-of-range member.
proof fn lemma_total_many_gives_dup(dv: Seq<Seq<NodeId>>, upto: int, n: usize)
    requires
        0 <= upto <= dv.len(),
        n <= 0xffff_ffff,
        spec_total_members(dv.subrange(0, upto)) > 0xffff_ffff,
    ensures
        !spec_partition_ok(dv, n),
{
    if spec_partition_ok(dv, n) {
        lemma_total_bounded(dv, upto, n);
    }
}

/// Under the partition validity rules, the member total of any prefix is
/// at most the node bound.
proof fn lemma_total_bounded(dv: Seq<Seq<NodeId>>, upto: int, n: usize)
    requires
        0 <= upto <= dv.len(),
        spec_partition_ok(dv, n),
    ensures
        spec_total_members(dv.subrange(0, upto)) <= spec_total_members(dv),
        spec_total_members(dv) < n,
    decreases dv.len() - upto,
{
    if upto < dv.len() {
        lemma_total_bounded(dv, upto + 1, n);
        assert(dv.subrange(0, upto + 1).drop_last() =~= dv.subrange(0, upto));
        assert(dv.subrange(0, upto + 1).last() == dv[upto]);
        assert(dv[upto].len() >= 0);
    } else {
        assert(dv.subrange(0, upto) =~= dv);
        lemma_union_lt(dv, n);
    }
}

/// Disjoint groups of distinct in-range members cannot hold `n` or more
/// members in total when their union is a strict subset of `0..n`; here
/// we only need that the total is below `n`, which validation checks by
/// counting.
proof fn lemma_union_lt(dv: Seq<Seq<NodeId>>, n: usize)
    requires
        spec_partition_ok(dv, n),
    ensures
        spec_total_members(dv) < n,
{
}

/// The internal fault a surface action maps to: a total mapping.
pub open spec fn spec_action_to_internal(action: Action) -> FaultEventInternal {
    match action {
        Action::Crash { node, duration } => FaultEventInternal::Crash {
            node_id: node,
            duration,
        },
        Action::Restart { node } => FaultEventInternal::Restart { node_id: node },
        Action::Partition { sets } => FaultEventInternal::Partition { sets },
        Action::HealPartition => FaultEventInternal::HealPartition,
        Action::ClockSkew { node, skew } => FaultEventInternal::ClockSkew {
            node_id: node,
            skew_ns: skew,
        },
        Action::LinkDelay { link, dist } => FaultEventInternal::LinkModelUpdate {
            link_id: link,
            change: LinkModelChange::SetDelay(dist),
        },
        Action::LinkDrop { link, p } => FaultEventInternal::LinkModelUpdate {
            link_id: link,
            change: LinkModelChange::SetDrop(p),
        },
        Action::BroadcastBytes { payload_hex, proto_tag } => FaultEventInternal::BroadcastBytes {
            payload_hex,
            proto_tag,
        },
        Action::StoreFault { node, kind, rate } => FaultEventInternal::StoreFault {
            node_id: node,
            kind,
            rate,
        },
        Action::ByzantineFlip { node, enabled } => FaultEventInternal::ByzantineFlip {
            node_id: node,
            enabled,
        },
        Action::Custom { name, args } => FaultEventInternal::Custom { name, args },
    }
}

/// Translates a surface action to its internal fault, matching
/// `spec_action_to_internal` on every action.
pub fn action_to_internal(action: Action) -> (f: FaultEventInternal)
    ensures
        f == spec_action_to_internal(action),
{
    match action {
        Action::Crash { node, duration } => FaultEventInternal::Crash {
            node_id: node,
            duration,
        },
        Action::Restart { node } => FaultEventInternal::Restart { node_id: node },
        Action::Partition { sets } => FaultEventInternal::Partition { sets },
        Action::HealPartition => FaultEventInternal::HealPartition,
        Action::ClockSkew { node, skew } => FaultEventInternal::ClockSkew {
            node_id: node,
            skew_ns: skew,
        },
        Action::LinkDelay { link, dist } => FaultEventInternal::LinkModelUpdate {
            link_id: link,
            change: LinkModelChange::SetDelay(dist),
        },
        Action::LinkDrop { link, p } => FaultEventInternal::LinkModelUpdate {
            link_id: link,
            change: LinkModelChange::SetDrop(p),
        },
        Action::BroadcastBytes { payload_hex, proto_tag } => FaultEventInternal::BroadcastBytes {
            payload_hex,
            proto_tag,
        },
        Action::StoreFault { node, kind, rate } => FaultEventInternal::StoreFault {
            node_id: node,
            kind,
            rate,
        },
        Action::ByzantineFlip { node, enabled } => FaultEventInternal::ByzantineFlip {
            node_id: node,
            enabled,
        },
        Action::Custom { name, args } => FaultEventInternal::Custom { name, args },
    }
}

/// Whether two actions denote the same action: `Partition` groupings are
/// compared by their contents, every other variant by value.
pub open spec fn action_denotes(a: Action, b: Action) -> bool {
    match (a, b) {
        (Action::Partition { sets: s1 }, Action::Partition { sets: s2 }) => s1.deep_view()
            == s2.deep_view(),
        _ => a == b,
    }
}

/// Whether two internal faults denote the same fault: `Partition`
/// groupings are compared by their contents, every other variant by
/// value.
pub open spec fn fault_denotes(a: FaultEventInternal, b: FaultEventInternal) -> bool {
    match (a, b) {
        (FaultEventInternal::Partition { sets: s1 }, FaultEventInternal::Partition {
            sets: s2,
        }) => s1.deep_view() == s2.deep_view(),
        _ => a == b,
    }
}

/// Translation preserves denotation: actions that denote the same action
/// map to internal faults that denote the same fault.
pub proof fn lemma_internal_denotes(c: Action, a: Action)
    requires
        action_denotes(c, a),
    ensures
        fault_denotes(spec_action_to_internal(c), spec_action_to_internal(a)),
{
}

/// A copy of a partition grouping, group for group.
fn copy_node_id_sets(v: &Vec<Vec<NodeId>>) -> (r: Vec<Vec<NodeId>>)
    ensures
        r.deep_view() == v.deep_view(),
{
    let mut r: Vec<Vec<NodeId>> = Vec::new();
    let n = v.len();
    let mut i: usize = 0;
    while i < n
        invariant
            n == v@.len(),
            0 <= i <= n,
            r@.len() == i,
            forall|m: int| 0 <= m < i ==> (#[trigger] r@[m])@ == v@[m]@,
        decreases n - i,
    {
        r.push(copy_node_ids(&v[i]));
        i = i + 1;
    }
    proof {
        assert(r.deep_view() =~= v.deep_view());
    }
    r
}

/// A copy of an action that denotes the same action: fields are copied,
/// strings cloned, partition groups copied member for member.
fn copy_action(a: &Action) -> (r: Action)
    ensures
        action_denotes(r, *a),
{
    match a {
        Action::Partition { sets } => Action::Partition { sets: copy_node_id_sets(sets) },
        Action::HealPartition => Action::HealPartition,
        Action::Crash { node, duration } => Action::Crash { node: *node, duration: *duration },
        Action::Restart { node } => Action::Restart { node: *node },
        Action::LinkDelay { link, dist } => Action::LinkDelay { link: *link, dist: *dist },
        Action::LinkDrop { link, p } => Action::LinkDrop { link: *link, p: *p },
        Action::BroadcastBytes { payload_hex, proto_tag } => Action::BroadcastBytes {
            payload_hex: payload_hex.clone(),
            proto_tag: *proto_tag,
        },
        Action::ClockSkew { node, skew } => Action::ClockSkew { node: *node, skew: *skew },
        Action::StoreFault { node, kind, rate } => Action::StoreFault {
            node: *node,
            kind: *kind,
            rate: *rate,
        },
        Action::ByzantineFlip { node, enabled } => Action::ByzantineFlip {
            node: *node,
            enabled: *enabled,
        },
        Action::Custom { name, args } => Action::Custom { name: name.clone(), args: args.clone() },
    }
}

/// A saturating multiple of a period.
pub open spec fn spec_mul_sat(i: u64, period: SimTime) -> SimTime {
    if i * period <= MAX_SIM_TIME {
        (i * period) as SimTime
    } else {
        MAX_SIM_TIME
    }
}

/// A saturating multiple of a period, matching `spec_mul_sat`.
fn time_mul_exec(i: u64, period: SimTime) -> (r: SimTime)
    ensures
        r == spec_mul_sat(i, period),
{
    if period == 0 {
        return 0;
    }
    if (i as u128) <= MAX_SIM_TIME / period {
        proof {
            vstd::arithmetic::div_mod::lemma_fundamental_div_mod(
                MAX_SIM_TIME as int,
                period as int,
            );
            assert((i as int) * (period as int) <= (MAX_SIM_TIME / period) as int * (
            period as int)) by (nonlinear_arith)
                requires
                    (i as int) <= (MAX_SIM_TIME / period) as int,
                    period > 0,
            ;
            assert((MAX_SIM_TIME / period) as int * (period as int) <= MAX_SIM_TIME as int);
        }
        (i as u128) * period
    } else {
        proof {
            vstd::arithmetic::div_mod::lemma_fundamental_div_mod(
                MAX_SIM_TIME as int,
                period as int,
            );
            vstd::arithmetic::div_mod::lemma_mod_bound(MAX_SIM_TIME as int, period as int);
            assert((i as int) * (period as int) > MAX_SIM_TIME as int) by (nonlinear_arith)
                requires
                    (i as int) > (MAX_SIM_TIME / period) as int,
                    period > 0,
                    MAX_SIM_TIME as int == ((MAX_SIM_TIME / period) as int) * (period as int) + (
                    MAX_SIM_TIME % period) as int,
                    ((MAX_SIM_TIME % period) as int) < (period as int),
            ;
        }
        MAX_SIM_TIME
    }
}

/// The firing times of one periodic directive: occurrence `k` fires at
/// the base plus `k` periods, saturating.
pub open spec fn spec_repeats(
    base: SimTime,
    period: SimTime,
    n: u64,
    action: Action,
) -> Seq<(SimTime, FaultEventInternal)>
    decreases n,
{
    if n == 0 {
        Seq::empty()
    } else {
        spec_repeats(base, period, (n - 1) as u64, action).push(
            (time_add(base, spec_mul_sat((n - 1) as u64, period)), spec_action_to_internal(action)),
        )
    }
}

/// The timeline a directive list expands to: one entry per occurrence,
/// each the firing time and the internal fault queued there. `At` fires
/// at its absolute time; `After` advances the running relative base by
/// its offset and fires there; `Every` fires at multiples of its period
/// past the base. All times saturate at the end of representable time.
pub open spec fn spec_timeline(
    dirs: Seq<Directive>,
    base: SimTime,
) -> Seq<(SimTime, FaultEventInternal)>
    decreases dirs.len(),
{
    if dirs.len() == 0 {
        Seq::empty()
    } else {
        match dirs[0] {
            Directive::At(at, action) => seq![(at, spec_action_to_internal(action))]
                + spec_timeline(dirs.drop_first(), base),
            Directive::After { offset, action } => seq![
                (time_add(base, offset), spec_action_to_internal(action)),
            ] + spec_timeline(dirs.drop_first(), time_add(base, offset)),
            Directive::Every { period, repeats, action } => spec_repeats(
                base,
                period,
                repeats,
                action,
            ) + spec_timeline(dirs.drop_first(), base),
        }
    }
}

/// The queue after a timeline was scheduled: everything kept, one fault
/// event appended per timeline entry, in order, at the entry's time with
/// fault priority.
pub open spec fn timeline_queued(
    post: Seq<Queued<Event>>,
    pre: Seq<Queued<Event>>,
    tl: Seq<(SimTime, FaultEventInternal)>,
) -> bool {
    &&& post.len() == pre.len() + tl.len()
    &&& forall|k: int| 0 <= k < pre.len() ==> post[k] == pre[k]
    &&& forall|k: int|
        0 <= k < tl.len() ==> {
            let q = #[trigger] post[pre.len() + k];
            &&& q.time == tl[k].0
            &&& q.discriminant == EventDiscriminant(0u8, 0xffff_ffffu32)
            &&& (q.payload matches Event::Fault(f) && fault_denotes(f, tl[k].1))
        }
}

/// Schedules a scenario's directives: absolute times as given, offsets
/// against a running relative base, repetitions at multiples of their
/// period, all with fault priority. Times saturate at the end of
/// representable time. Must run before the first step. Unless an id
/// family was exhausted, the queue afterwards holds exactly the old
/// events followed by the scenario's expanded timeline.
pub fn load_and_schedule(sim: &mut Simulation, scenario: &Scenario)
    requires
        old(sim).wf(),
        old(sim).clock == 0,
    ensures
        final(sim).wf(),
        final(sim).clock == 0,
        final(sim).queue@.len() >= old(sim).queue@.len(),
        forall|k: int| 0 <= k < old(sim).queue@.len() ==> final(sim).queue@[k] == old(sim).queue@[k],
        final(sim).world == old(sim).world,
        final(sim).state == old(sim).state,
        !final(sim).failed ==> timeline_queued(
            final(sim).queue@,
            old(sim).queue@,
            spec_timeline(scenario.directives@, 0),
        ),
{
    let ghost dirs = scenario.directives@;
    let n_dir = scenario.directives.len();
    let mut relative_base: SimTime = 0;
    let ghost mut done: Seq<(SimTime, FaultEventInternal)> = Seq::empty();
    proof {
        assert(dirs.skip(0) =~= dirs);
        assert(done + spec_timeline(dirs, 0) =~= spec_timeline(dirs, 0));
    }
    let mut i: usize = 0;
    while i < n_dir
        invariant
            dirs == scenario.directives@,
            n_dir == dirs.len(),
            0 <= i <= n_dir,
            sim.wf(),
            sim.clock == 0,
            sim.queue@.len() >= old(sim).queue@.len(),
            forall|k: int|
                0 <= k < old(sim).queue@.len() ==> sim.queue@[k] == old(sim).queue@[k],
            sim.world == old(sim).world,
            sim.state == old(sim).state,
            done + spec_timeline(dirs.skip(i as int), relative_base) == spec_timeline(dirs, 0),
            !sim.failed ==> timeline_queued(sim.queue@, old(sim).queue@, done),
        decreases n_dir - i,
    {
        let ghost tail = dirs.skip(i as int);
        proof {
            assert(tail[0] == dirs[i as int]);
            assert(tail.drop_first() =~= dirs.skip(i + 1));
        }
        let directive = &scenario.directives[i];
        match directive {
            Directive::At(at, action) => {
                let copied = copy_action(action);
                let ghost cspec = copied;
                let f = action_to_internal(copied);
                let ghost entry = (*at, spec_action_to_internal(*action));
                let ghost pre_q = sim.queue@;
                sim.schedule_at(*at, Event::Fault(f), EventDiscriminant::fault());
                proof {
                    lemma_internal_denotes(cspec, *action);
                    assert(spec_timeline(tail, relative_base) =~= seq![entry] + spec_timeline(
                        tail.drop_first(),
                        relative_base,
                    ));
                    lemma_timeline_step(
                        sim.queue@,
                        pre_q,
                        old(sim).queue@,
                        done,
                        entry,
                        sim.failed,
                    );
                    done = done.push(entry);
                    assert(done + spec_timeline(dirs.skip(i + 1), relative_base) =~= spec_timeline(
                        dirs,
                        0,
                    ));
                }
            },
            Directive::After { offset, action } => {
                let ghost pre_base = relative_base;
                relative_base = time_add_exec(relative_base, *offset);
                let copied = copy_action(action);
                let ghost cspec = copied;
                let f = action_to_internal(copied);
                let ghost entry = (relative_base, spec_action_to_internal(*action));
                let ghost pre_q = sim.queue@;
                sim.schedule_at(relative_base, Event::Fault(f), EventDiscriminant::fault());
                proof {
                    lemma_internal_denotes(cspec, *action);
                    assert(spec_timeline(tail, pre_base) =~= seq![entry]
                        + spec_timeline(tail.drop_first(), relative_base));
                    lemma_timeline_step(
                        sim.queue@,
                        pre_q,
                        old(sim).queue@,
                        done,
                        entry,
                        sim.failed,
                    );
                    done = done.push(entry);
                    assert(done + spec_timeline(dirs.skip(i + 1), relative_base) =~= spec_timeline(
                        dirs,
                        0,
                    ));
                }
            },
            Directive::Every { period, repeats, action } => {
                let ghost base_done = done;
                let mut rep: u64 = 0;
                while rep < *repeats
                    invariant
                        sim.wf(),
                        sim.clock == 0,
                        sim.queue@.len() >= old(sim).queue@.len(),
                        forall|k: int|
                            0 <= k < old(sim).queue@.len() ==> sim.queue@[k] == old(
                                sim,
                            ).queue@[k],
                        sim.world == old(sim).world,
                        sim.state == old(sim).state,
                        0 <= rep <= *repeats,
                        done == base_done + spec_repeats(relative_base, *period, rep, *action),
                        !sim.failed ==> timeline_queued(sim.queue@, old(sim).queue@, done),
                    decreases *repeats - rep,
                {
                    let at = time_add_exec(relative_base, time_mul_exec(rep, *period));
                    let copied = copy_action(action);
                    let ghost cspec = copied;
                    let f = action_to_internal(copied);
                    let ghost entry = (
                        time_add(relative_base, spec_mul_sat(rep, *period)),
                        spec_action_to_internal(*action),
                    );
                    let ghost pre_q = sim.queue@;
                    sim.schedule_at(at, Event::Fault(f), EventDiscriminant::fault());
                    proof {
                        lemma_internal_denotes(cspec, *action);
                        lemma_timeline_step(
                            sim.queue@,
                            pre_q,
                            old(sim).queue@,
                            done,
                            entry,
                            sim.failed,
                        );
                        done = done.push(entry);
                        assert(done =~= base_done + spec_repeats(
                            relative_base,
                            *period,
                            (rep + 1) as u64,
                            *action,
                        ));
                    }
                    rep = rep + 1;
                }
                proof {
                    assert(spec_timeline(tail, relative_base) =~= spec_repeats(
                        relative_base,
                        *period,
                        *repeats,
                        *action,
                    ) + spec_timeline(tail.drop_first(), relative_base));
                    assert(done + spec_timeline(dirs.skip(i + 1), relative_base) =~= spec_timeline(
                        dirs,
                        0,
                    ));
                }
            },
        }
        i = i + 1;
    }
    proof {
        assert(dirs.skip(n_dir as int) =~= Seq::<Directive>::empty());
        assert(done =~= spec_timeline(dirs, 0));
    }
}

/// One scheduling step extends a matching queue by one matching event:
/// when the simulation has not failed, the queue grew by exactly the
/// appended fault event, so the accumulated timeline grows with it.
proof fn lemma_timeline_step(
    post: Seq<Queued<Event>>,
    mid: Seq<Queued<Event>>,
    pre: Seq<Queued<Event>>,
    done: Seq<(SimTime, FaultEventInternal)>,
    entry: (SimTime, FaultEventInternal),
    failed: bool,
)
    requires
        !failed ==> timeline_queued(mid, pre, done),
        !failed ==> post.len() == mid.len() + 1,
        !failed ==> forall|k: int| 0 <= k < mid.len() ==> post[k] == mid[k],
        !failed ==> post.last().time == entry.0,
        !failed ==> post.last().discriminant == EventDiscriminant(0u8, 0xffff_ffffu32),
        !failed ==> (post.last().payload matches Event::Fault(f) && fault_denotes(f, entry.1)),
    ensures
        !failed ==> timeline_queued(post, pre, done.push(entry)),
{
    if !failed {
        assert forall|k: int| 0 <= k < done.push(entry).len() implies {
            let q = #[trigger] post[pre.len() + k];
            &&& q.time == done.push(entry)[k].0
            &&& q.discriminant == EventDiscriminant(0u8, 0xffff_ffffu32)
            &&& (q.payload matches Event::Fault(f) && fault_denotes(f, done.push(entry)[k].1))
        } by {
            if k < done.len() {
                assert(post[pre.len() + k] == mid[pre.len() + k]);
                assert(done.push(entry)[k] == done[k]);
            } else {
                assert(pre.len() + k == post.len() - 1);
                assert(post[pre.len() + k] == post.last());
            }
        }
    }
}

} // verus!
