//! The discipline for using the master random number generator. All
//! nondeterministic choices in a run derive from one seeded ChaCha20 stream,
//! and every draw is bound to a stable site so that two runs at the same
//! seed can be audited against each other.

use vstd::prelude::*;
use crate::ids::NodeId;
use std::collections::HashMap;

verus! {

broadcast use vstd::std_specs::hash::group_hash_axioms;

/// A wrapper for the RNG seed to make its purpose clear.
#[derive(Debug, Clone, Copy, PartialEq, Eq, Structural)]
pub struct RngSeed(pub u64);

/// The declaration of the ChaCha20 generator type; a value of it is opaque
/// to the verifier and is only threaded through the trusted wrappers below.
#[verifier::external_type_specification]
#[verifier::external_body]
pub struct ExChaCha20Rng(rand_chacha::ChaCha20Rng);

/// Relies on rand's `SeedableRng::seed_from_u64` for ChaCha20: builds the
/// generator state from a 64-bit seed. Nothing is claimed of the state.
#[verifier::external_body]
fn chacha_from_seed(seed: u64) -> rand_chacha::ChaCha20Rng {
    <rand_chacha::ChaCha20Rng as rand::SeedableRng>::seed_from_u64(seed)
}

/// Relies on rand's `RngCore::next_u64` for ChaCha20: advances the stream
/// and yields its next word. Nothing is claimed of the value.
#[verifier::external_body]
fn chacha_next_u64(rng: &mut rand_chacha::ChaCha20Rng) -> u64 {
    rand::RngCore::next_u64(rng)
}

/// A pre-interned label for a location in the simulator that consumes
/// randomness. Labels that belong to one node carry its id.
#[derive(Debug, Clone, Copy, PartialEq, Eq, Structural)]
pub enum Site {
    /// The drop trial in the network send path.
    NetDrop,
    /// The base-delay sample in the network send path.
    NetDelayBase,
    /// The jitter sample in the network send path.
    NetDelayJitter,
    /// The delay sample for a duplicated delivery.
    NetDelayDup,
    /// The duplicate trial in the network send path.
    NetDuplicate,
    /// Random topology construction.
    NetTopology,
    /// A protocol's own draw on the given node.
    ProtoNode(NodeId),
    /// The write-error trial of a log append on the given node.
    StoreAppendWriteError(NodeId),
    /// The torn-write trial of a log append on the given node.
    StoreAppendTornWrite(NodeId),
    /// The read-error trial of a log read on the given node.
    StoreReadError(NodeId),
    /// The stale-read trial of a log read on the given node.
    StoreStaleRead(NodeId),
    /// The failure trial of an fsync on the given node.
    StoreFsync(NodeId),
}

impl Site {
    /// A stable numeric code for the site, used as the audit-map key:
    /// the label family in the high half, the node id in the low half.
    pub open spec fn spec_code(self) -> u64 {
        match self {
            Site::NetDrop => 0x1_0000_0000u64,
            Site::NetDelayBase => 0x2_0000_0000u64,
            Site::NetDelayJitter => 0x3_0000_0000u64,
            Site::NetDelayDup => 0x4_0000_0000u64,
            Site::NetDuplicate => 0x5_0000_0000u64,
            Site::NetTopology => 0x6_0000_0000u64,
            Site::ProtoNode(n) => (0x7_0000_0000u64 + n) as u64,
            Site::StoreAppendWriteError(n) => (0x8_0000_0000u64 + n) as u64,
            Site::StoreAppendTornWrite(n) => (0x9_0000_0000u64 + n) as u64,
            Site::StoreReadError(n) => (0xa_0000_0000u64 + n) as u64,
            Site::StoreStaleRead(n) => (0xb_0000_0000u64 + n) as u64,
            Site::StoreFsync(n) => (0xc_0000_0000u64 + n) as u64,
        }
    }

    /// The site's numeric code, matching `spec_code`.
    pub fn code(self) -> (c: u64)
        ensures
            c == self.spec_code(),
    {
        match self {
            Site::NetDrop => 0x1_0000_0000,
            Site::NetDelayBase => 0x2_0000_0000,
            Site::NetDelayJitter => 0x3_0000_0000,
            Site::NetDelayDup => 0x4_0000_0000,
            Site::NetDuplicate => 0x5_0000_0000,
            Site::NetTopology => 0x6_0000_0000,
            Site::ProtoNode(n) => 0x7_0000_0000 + (n as u64),
            Site::StoreAppendWriteError(n) => 0x8_0000_0000 + (n as u64),
            Site::StoreAppendTornWrite(n) => 0x9_0000_0000 + (n as u64),
            Site::StoreReadError(n) => 0xa_0000_0000 + (n as u64),
            Site::StoreStaleRead(n) => 0xb_0000_0000 + (n as u64),
            Site::StoreFsync(n) => 0xc_0000_0000 + (n as u64),
        }
    }
}

/// A map of draw counts with one entry raised by one, saturating.
pub open spec fn spec_bump(m: Map<u64, u64>, code: u64) -> Map<u64, u64> {
    let prior: u64 = if m.dom().contains(code) {
        m[code]
    } else {
        0u64
    };
    let next: u64 = if prior < u64::MAX {
        (prior + 1) as u64
    } else {
        prior
    };
    m.insert(code, next)
}

/// Records every deterministic decision made during a run: the seed, and
/// how many draws each site has made. The map is only ever queried by
/// site code, never walked, so its iteration order cannot reach any
/// output; a consumer that lists the counts must order them by code.
pub struct Recorder {
    pub seed: u64,
    pub sites: HashMap<u64, u64>,
}

impl Recorder {
    /// The audit map: draw counts by site code.
    pub open spec fn counts(self) -> Map<u64, u64> {
        self.sites@
    }

    pub fn new(seed: u64) -> (r: Recorder)
        ensures
            r.seed == seed,
            r.counts() == Map::<u64, u64>::empty(),
    {
        Recorder { seed, sites: HashMap::new() }
    }

    /// Records that one random number was drawn at a site.
    pub fn record_draw(&mut self, site: Site)
        ensures
            final(self).seed == old(self).seed,
            final(self).counts() == spec_bump(old(self).counts(), site.spec_code()),
    {
        let code = site.code();
        let prior: u64 = match self.sites.get(&code) {
            Some(c) => *c,
            None => 0,
        };
        let next: u64 = if prior < u64::MAX {
            prior + 1
        } else {
            prior
        };
        self.sites.insert(code, next);
    }

    /// The number of draws recorded at a site.
    pub fn draws_at(&self, site: Site) -> (n: u64)
        ensures
            n == if self.counts().dom().contains(site.spec_code()) {
                self.counts()[site.spec_code()]
            } else {
                0u64
            },
    {
        match self.sites.get(&site.code()) {
            Some(c) => *c,
            None => 0,
        }
    }
}

/// The single seeded source of randomness for a run, with its audit
/// recorder. Every draw goes through `draw`, which binds it to a site.
pub struct MasterRng {
    pub rng: rand_chacha::ChaCha20Rng,
    pub recorder: Recorder,
}

impl MasterRng {
    pub fn new(seed: u64) -> (r: MasterRng)
        ensures
            r.recorder.seed == seed,
            r.recorder.counts() == Map::<u64, u64>::empty(),
    {
        MasterRng { rng: chacha_from_seed(seed), recorder: Recorder::new(seed) }
    }

    /// Draws the next word of the stream for a site, recording the draw.
    /// The value itself is opaque: callers state what holds of every
    /// outcome.
    pub fn draw(&mut self, site: Site) -> (v: u64)
        ensures
            final(self).recorder.seed == old(self).recorder.seed,
            final(self).recorder.counts() == spec_bump(
                old(self).recorder.counts(),
                site.spec_code(),
            ),
    {
        self.recorder.record_draw(site);
        chacha_next_u64(&mut self.rng)
    }
}

} // verus!
