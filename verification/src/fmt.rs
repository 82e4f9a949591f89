//! Human-readable rendering of simulation values: decimal numbers and
//! scaled time, each pinned to a character-level model. The surrounding
//! tool wraps these in its log formatters.

use vstd::prelude::*;
use crate::time::SimTime;

verus! {

/// The decimal digits of a number, most significant first.
pub open spec fn spec_decimal(n: nat) -> Seq<char>
    decreases n,
{
    if n < 10 {
        seq![spec_digit_char(n)]
    } else {
        spec_decimal(n / 10) + seq![spec_digit_char(n % 10)]
    }
}

/// The character of one decimal digit.
pub open spec fn spec_digit_char(d: nat) -> char
    recommends
        d < 10,
{
    if d == 0 {
        '0'
    } else if d == 1 {
        '1'
    } else if d == 2 {
        '2'
    } else if d == 3 {
        '3'
    } else if d == 4 {
        '4'
    } else if d == 5 {
        '5'
    } else if d == 6 {
        '6'
    } else if d == 7 {
        '7'
    } else if d == 8 {
        '8'
    } else {
        '9'
    }
}

/// One decimal digit as a string.
fn digit_str(d: u128) -> (r: String)
    requires
        d < 10,
    ensures
        r@ == seq![spec_digit_char(d as nat)],
{
    let r = if d == 0 {
        String::from_str("0")
    } else if d == 1 {
        String::from_str("1")
    } else if d == 2 {
        String::from_str("2")
    } else if d == 3 {
        String::from_str("3")
    } else if d == 4 {
        String::from_str("4")
    } else if d == 5 {
        String::from_str("5")
    } else if d == 6 {
        String::from_str("6")
    } else if d == 7 {
        String::from_str("7")
    } else if d == 8 {
        String::from_str("8")
    } else {
        String::from_str("9")
    };
    proof {
        reveal_strlit("0");
        reveal_strlit("1");
        reveal_strlit("2");
        reveal_strlit("3");
        reveal_strlit("4");
        reveal_strlit("5");
        reveal_strlit("6");
        reveal_strlit("7");
        reveal_strlit("8");
        reveal_strlit("9");
        assert(r@ =~= seq![spec_digit_char(d as nat)]);
    }
    r
}

/// Renders a number in decimal, matching `spec_decimal`.
pub fn u128_to_string(n: u128) -> (r: String)
    ensures
        r@ == spec_decimal(n as nat),
    decreases n,
{
    if n < 10 {
        digit_str(n)
    } else {
        let high = u128_to_string(n / 10);
        let low = digit_str(n % 10);
        let r = high.concat(low.as_str());
        proof {
            assert(r@ =~= spec_decimal((n / 10) as nat) + seq![spec_digit_char((n % 10) as nat)]);
        }
        r
    }
}

/// Renders a number in decimal, matching `spec_decimal`.
pub fn u64_to_string(n: u64) -> (r: String)
    ensures
        r@ == spec_decimal(n as nat),
{
    u128_to_string(n as u128)
}

/// A simulation time rendered at the largest fitting unit with one
/// decimal place: nanoseconds below a microsecond, then microseconds,
/// milliseconds and seconds.
pub open spec fn spec_format_sim_time(ns: nat) -> Seq<char> {
    if ns < 1_000 {
        spec_decimal(ns) + "ns"@
    } else if ns < 1_000_000 {
        spec_scaled(ns, 1_000) + "us"@
    } else if ns < 1_000_000_000 {
        spec_scaled(ns, 1_000_000) + "ms"@
    } else {
        spec_scaled(ns, 1_000_000_000) + "s"@
    }
}

/// A value over a unit with one decimal place: the whole part, a point,
/// and one tenth digit.
pub open spec fn spec_scaled(ns: nat, unit: nat) -> Seq<char>
    recommends
        unit >= 10,
{
    spec_decimal(ns / unit) + "."@ + seq![spec_digit_char((ns % unit) * 10 / unit)]
}

/// Renders a scaled value with one decimal place, matching
/// `spec_scaled`.
fn scaled(ns: u128, unit: u128) -> (r: String)
    requires
        10 <= unit <= 1_000_000_000,
    ensures
        r@ == spec_scaled(ns as nat, unit as nat),
{
    proof {
        vstd::arithmetic::div_mod::lemma_mod_bound(ns as int, unit as int);
        assert(((ns as int) % (unit as int)) * 10 < 0x1_0000_0000_0000u128 && ((ns as int) % (
        unit as int)) * 10 / (unit as int) < 10) by (nonlinear_arith)
            requires
                10 <= unit as int <= 1_000_000_000,
                0 <= (ns as int) % (unit as int) < unit as int,
        ;
    }
    let whole = u128_to_string(ns / unit);
    let tenth = digit_str((ns % unit) * 10 / unit);
    let r = whole.concat(".").concat(tenth.as_str());
    proof {
        reveal_strlit(".");
        assert(r@ =~= spec_scaled(ns as nat, unit as nat));
    }
    r
}

/// Renders a simulation time, matching `spec_format_sim_time`.
pub fn format_sim_time(sim_time_ns: SimTime) -> (r: String)
    ensures
        r@ == spec_format_sim_time(sim_time_ns as nat),
{
    proof {
        reveal_strlit("ns");
        reveal_strlit("us");
        reveal_strlit("ms");
        reveal_strlit("s");
    }
    if sim_time_ns < 1_000 {
        let r = u128_to_string(sim_time_ns).concat("ns");
        proof {
            assert(r@ =~= spec_format_sim_time(sim_time_ns as nat));
        }
        r
    } else if sim_time_ns < 1_000_000 {
        let r = scaled(sim_time_ns, 1_000).concat("us");
        proof {
            assert(r@ =~= spec_format_sim_time(sim_time_ns as nat));
        }
        r
    } else if sim_time_ns < 1_000_000_000 {
        let r = scaled(sim_time_ns, 1_000_000).concat("ms");
        proof {
            assert(r@ =~= spec_format_sim_time(sim_time_ns as nat));
        }
        r
    } else {
        let r = scaled(sim_time_ns, 1_000_000_000).concat("s");
        proof {
            assert(r@ =~= spec_format_sim_time(sim_time_ns as nat));
        }
        r
    }
}

/// The detailed log formatter of the surrounding tool; the verified part
/// is the time rendering it uses.
#[derive(Debug, Clone, Copy, PartialEq, Eq, Structural)]
pub struct SimulationFormatter {
}

impl SimulationFormatter {
    pub fn new() -> SimulationFormatter {
        SimulationFormatter {  }
    }

    /// Renders a simulation time at the largest fitting unit.
    pub fn format_sim_time(sim_time_ns: SimTime) -> (r: String)
        ensures
            r@ == spec_format_sim_time(sim_time_ns as nat),
    {
        format_sim_time(sim_time_ns)
    }
}

/// The terse log formatter of the surrounding tool's headless mode.
#[derive(Debug, Clone, Copy, PartialEq, Eq, Structural)]
pub struct HeadlessFormatter {
}

impl HeadlessFormatter {
    pub fn new() -> HeadlessFormatter {
        HeadlessFormatter {  }
    }
}

} // verus!
