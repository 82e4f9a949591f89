//! Representation of time within the simulation. All simulation time is
//! discrete and measured in nanoseconds since the simulation epoch; a `u128`
//! gives enough range for any practical run.

use vstd::prelude::*;

verus! {

/// The fundamental unit of time in the simulation, in nanoseconds.
pub type SimTime = u128;

/// The start of simulation time.
pub const SIM_EPOCH: SimTime = 0;

/// The maximum representable simulation time.
pub const MAX_SIM_TIME: SimTime = 0xffff_ffff_ffff_ffff_ffff_ffff_ffff_ffff;

/// An error raised by time arithmetic at the boundaries of `SimTime`.
#[derive(Debug, Clone, PartialEq, Eq, Structural)]
pub enum TimeError {
    Overflow,
    Underflow,
}

/// Converts milliseconds to `SimTime`.
pub fn sim_from_ms(ms: u64) -> (t: SimTime)
    ensures
        t == ms * 1_000_000,
{
    (ms as u128) * 1_000_000
}

/// Converts microseconds to `SimTime`.
pub fn sim_from_us(us: u64) -> (t: SimTime)
    ensures
        t == us * 1_000,
{
    (us as u128) * 1_000
}

/// Checked addition on `SimTime`: an error at the upper boundary.
pub fn checked_add(base: SimTime, offset: SimTime) -> (r: Result<SimTime, TimeError>)
    ensures
        base + offset <= MAX_SIM_TIME ==> r == Ok::<SimTime, TimeError>((base + offset) as SimTime),
        base + offset > MAX_SIM_TIME ==> r == Err::<SimTime, TimeError>(TimeError::Overflow),
{
    if base <= MAX_SIM_TIME - offset {
        Ok(base + offset)
    } else {
        Err(TimeError::Overflow)
    }
}

/// Checked subtraction on `SimTime`: an error at the lower boundary.
pub fn checked_sub(base: SimTime, offset: SimTime) -> (r: Result<SimTime, TimeError>)
    ensures
        offset <= base ==> r == Ok::<SimTime, TimeError>((base - offset) as SimTime),
        offset > base ==> r == Err::<SimTime, TimeError>(TimeError::Underflow),
{
    if offset <= base {
        Ok(base - offset)
    } else {
        Err(TimeError::Underflow)
    }
}

/// The sum of a time and an offset, saturating at the end of representable
/// time. A delivery or restart pushed past the boundary simply never fires.
pub open spec fn time_add(base: SimTime, offset: SimTime) -> SimTime {
    if base + offset <= MAX_SIM_TIME {
        (base + offset) as SimTime
    } else {
        MAX_SIM_TIME
    }
}

/// Saturating addition on `SimTime`, matching `time_add`.
pub fn time_add_exec(base: SimTime, offset: SimTime) -> (r: SimTime)
    ensures
        r == time_add(base, offset),
        r >= base,
{
    if base <= MAX_SIM_TIME - offset {
        base + offset
    } else {
        MAX_SIM_TIME
    }
}

/// A node's view of the clock: the kernel clock shifted by the node's signed
/// skew, saturating at both boundaries of `SimTime`.
pub open spec fn skew_adjust(base: SimTime, skew_ns: i128) -> SimTime {
    if skew_ns >= 0 {
        time_add(base, skew_ns as SimTime)
    } else if base >= -(skew_ns as int) {
        (base - -(skew_ns as int)) as SimTime
    } else {
        0
    }
}

/// Applies a signed clock skew to a time, matching `skew_adjust`.
pub fn skew_adjust_exec(base: SimTime, skew_ns: i128) -> (r: SimTime)
    ensures
        r == skew_adjust(base, skew_ns),
{
    if skew_ns >= 0 {
        time_add_exec(base, skew_ns as u128)
    } else {
        let mag: u128 = if skew_ns == i128::MIN {
            0x8000_0000_0000_0000_0000_0000_0000_0000u128
        } else {
            (-skew_ns) as u128
        };
        if base >= mag {
            base - mag
        } else {
            0
        }
    }
}

} // verus!
