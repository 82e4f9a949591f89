//! Deterministic probability and delay models. A probability is held in
//! fixed point, as parts per million, so that a Bernoulli trial is a pure
//! function of one draw from the master RNG; every implementation detail is
//! an integer and therefore identical across platforms.

use vstd::prelude::*;

verus! {

/// One million: the denominator of every probability in the simulator.
pub const PROB_ONE: u32 = 1_000_000;

/// A probability in fixed point: `ppm` parts per million, in `[0, PROB_ONE]`.
#[derive(Debug, Clone, Copy, PartialEq, Eq, Structural)]
pub struct Bernoulli {
    pub ppm: u32,
}

impl Bernoulli {
    /// Well-formed: the numerator does not exceed the denominator.
    pub open spec fn wf(self) -> bool {
        self.ppm <= PROB_ONE
    }

    /// The always-false trial.
    pub fn never() -> (b: Bernoulli)
        ensures
            b.ppm == 0,
            b.wf(),
    {
        Bernoulli { ppm: 0 }
    }

    /// A probability from parts per million, clamped into range as scenario
    /// validation demands of rates outside `[0, 1]`.
    pub fn from_ppm_clamped(ppm: u32) -> (b: Bernoulli)
        ensures
            b.ppm == if ppm <= PROB_ONE { ppm } else { PROB_ONE },
            b.wf(),
    {
        if ppm <= PROB_ONE {
            Bernoulli { ppm }
        } else {
            Bernoulli { ppm: PROB_ONE }
        }
    }

    /// Whether a trial against this probability hits, for a given draw.
    pub open spec fn spec_hits(self, draw: u64) -> bool {
        draw % (PROB_ONE as u64) < self.ppm
    }

    /// Performs the Bernoulli trial on one draw from the master RNG.
    /// A zero probability never hits; `PROB_ONE` always hits.
    pub fn hits(self, draw: u64) -> (r: bool)
        ensures
            r == self.spec_hits(draw),
            self.ppm == 0 ==> !r,
            self.ppm == PROB_ONE ==> r,
    {
        draw % (PROB_ONE as u64) < (self.ppm as u64)
    }
}

/// A deterministic delay distribution, in nanoseconds. `Normal` and `Pareto`
/// are integer approximations with a fixed algorithmic form, so that the
/// sampled stream is identical across platforms.
#[derive(Debug, Clone, Copy, PartialEq, Eq, Structural)]
pub enum DelaySpec {
    Const(u64),
    Uniform { lo: u64, hi: u64 },
    /// Approximated as a uniform draw on `[mu - sigma, mu + sigma]`,
    /// saturating at the ends of the `u64` range, with `mu` and `sigma`
    /// floored at 1.
    Normal { mu: u64, sigma: u64 },
    /// Approximated by its scale parameter, floored at 1.
    Pareto { scale: u64, shape: u64 },
}

/// The value a uniform draw on `[lo, hi]` takes: `lo` when the range is
/// empty or reversed, else `lo` plus the draw reduced into the range.
pub open spec fn spec_uniform(draw: u64, lo: u64, hi: u64) -> u64 {
    if lo >= hi {
        lo
    } else {
        (lo + (draw as int) % (hi - lo + 1)) as u64
    }
}

/// The delay a distribution yields for a given draw. Distributions that
/// ignore the draw (`Const`, `Pareto`) still consume it, so that the stream
/// of draw sites does not depend on link configuration.
pub open spec fn spec_sample_delay(draw: u64, spec: DelaySpec) -> u64 {
    match spec {
        DelaySpec::Const(d) => d,
        DelaySpec::Uniform { lo, hi } => spec_uniform(draw, lo, hi),
        DelaySpec::Normal { mu, sigma } => {
            let base = if mu >= 1 { mu } else { 1u64 };
            let var = if sigma >= 1 { sigma } else { 1u64 };
            let lo = if base >= var { (base - var) as u64 } else { 0u64 };
            let hi = if base + var <= u64::MAX { (base + var) as u64 } else { u64::MAX };
            spec_uniform(draw, lo, hi)
        },
        DelaySpec::Pareto { scale, shape: _ } => if scale >= 1 { scale } else { 1u64 },
    }
}

/// Samples a delay value from a distribution, given one draw from the
/// master RNG. Matches `spec_sample_delay` exactly.
pub fn sample_delay(draw: u64, spec: &DelaySpec) -> (d: u64)
    ensures
        d == spec_sample_delay(draw, *spec),
{
    match spec {
        DelaySpec::Const(d) => *d,
        DelaySpec::Uniform { lo, hi } => uniform(draw, *lo, *hi),
        DelaySpec::Normal { mu, sigma } => {
            let base: u64 = if *mu >= 1 { *mu } else { 1 };
            let var: u64 = if *sigma >= 1 { *sigma } else { 1 };
            let lo: u64 = if base >= var { base - var } else { 0 };
            let hi: u64 = if base <= u64::MAX - var { base + var } else { u64::MAX };
            uniform(draw, lo, hi)
        },
        DelaySpec::Pareto { scale, shape: _ } => if *scale >= 1 { *scale } else { 1 },
    }
}

/// A uniform integer draw on `[lo, hi]`, matching `spec_uniform`.
fn uniform(draw: u64, lo: u64, hi: u64) -> (d: u64)
    ensures
        d == spec_uniform(draw, lo, hi),
{
    if lo >= hi {
        lo
    } else {
        let span_minus_one: u64 = hi - lo;
        if span_minus_one == u64::MAX {
            // The whole range: the draw itself is the sample.
            proof {
                vstd::arithmetic::div_mod::lemma_small_mod(
                    draw as nat,
                    0x1_0000_0000_0000_0000nat,
                );
            }
            draw
        } else {
            let span: u64 = span_minus_one + 1;
            lo + draw % span
        }
    }
}

} // verus!
