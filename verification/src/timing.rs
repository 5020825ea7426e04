//! Virtual time. Instants are non-negative tick counts; a time advance is
//! either a finite delay or `Never` ("no internal event scheduled").

use vstd::prelude::*;

verus! {

/// A time advance or a next-event instant: a finite number of ticks, or
/// `Never`, the DEVS "infinite" delay of a passive model.
#[derive(Clone, Copy, Debug, PartialEq, Eq, Structural)]
pub enum TimeVal {
    At(u64),
    Never,
}

/// `a` is at or before `b`; `Never` is later than every finite instant.
pub open spec fn t_le(a: TimeVal, b: TimeVal) -> bool {
    match (a, b) {
        (TimeVal::At(x), TimeVal::At(y)) => x <= y,
        (TimeVal::At(_), TimeVal::Never) => true,
        (TimeVal::Never, TimeVal::At(_)) => false,
        (TimeVal::Never, TimeVal::Never) => true,
    }
}

/// The earlier of two instants.
pub open spec fn t_min(a: TimeVal, b: TimeVal) -> TimeVal {
    if t_le(a, b) {
        a
    } else {
        b
    }
}

/// The instant `d` ticks after instant `t`. A sum beyond the representable
/// horizon is treated as `Never`: it can never be reached within a run whose
/// end time is representable.
pub open spec fn spec_add_delay(t: u64, d: TimeVal) -> TimeVal {
    match d {
        TimeVal::At(x) => if t + x <= u64::MAX {
            TimeVal::At((t + x) as u64)
        } else {
            TimeVal::Never
        },
        TimeVal::Never => TimeVal::Never,
    }
}

pub fn time_le(a: TimeVal, b: TimeVal) -> (r: bool)
    ensures
        r == t_le(a, b),
{
    match (a, b) {
        (TimeVal::At(x), TimeVal::At(y)) => x <= y,
        (TimeVal::At(_), TimeVal::Never) => true,
        (TimeVal::Never, TimeVal::At(_)) => false,
        (TimeVal::Never, TimeVal::Never) => true,
    }
}

pub fn time_min(a: TimeVal, b: TimeVal) -> (r: TimeVal)
    ensures
        r == t_min(a, b),
{
    if time_le(a, b) {
        a
    } else {
        b
    }
}

pub fn add_delay(t: u64, d: TimeVal) -> (r: TimeVal)
    ensures
        r == spec_add_delay(t, d),
{
    match d {
        TimeVal::At(x) => if x <= u64::MAX - t {
            TimeVal::At(t + x)
        } else {
            TimeVal::Never
        },
        TimeVal::Never => TimeVal::Never,
    }
}

/// The remainder of a delay after `e` ticks of it have elapsed; a delay
/// cannot shrink below zero, and `Never` stays `Never`.
pub open spec fn spec_shrink(d: TimeVal, e: u64) -> TimeVal {
    match d {
        TimeVal::At(x) => if e <= x {
            TimeVal::At((x - e) as u64)
        } else {
            TimeVal::At(0)
        },
        TimeVal::Never => TimeVal::Never,
    }
}

pub fn shrink(d: TimeVal, e: u64) -> (r: TimeVal)
    ensures
        r == spec_shrink(d, e),
{
    match d {
        TimeVal::At(x) => if e <= x {
            TimeVal::At(x - e)
        } else {
            TimeVal::At(0)
        },
        TimeVal::Never => TimeVal::Never,
    }
}

/// A delay never schedules an event before its base instant.
pub proof fn lemma_add_delay_ge(t: u64, d: TimeVal)
    ensures
        t_le(TimeVal::At(t), spec_add_delay(t, d)),
{
}

} // verus!
