//! Simulation time: a point on the simulated clock and the distance between
//! two such points, both counted in whole nanoseconds.

use std::time::Duration;
use vstd::prelude::*;
use vstd::std_specs::ops::AddSpecImpl;
use vstd::std_specs::ops::SubSpecImpl;

verus! {

pub const NANOS_PER_SEC: u128 = 1_000_000_000;

pub const NANOS_PER_MILLI: u128 = 1_000_000;

pub const NANOS_PER_MICRO: u128 = 1_000;

/// The largest span the clock can represent: `u64::MAX` seconds and
/// 999,999,999 nanoseconds.
pub const MAX_NANOS: u128 = 18_446_744_073_709_551_615_999_999_999;

/// The number of nanoseconds that a `Duration` holds.
pub uninterp spec fn duration_nanos(d: Duration) -> nat;

/// `Duration::as_nanos` yields the whole span in nanoseconds; nothing is
/// claimed about its size.
pub assume_specification[ Duration::as_nanos ](d: &Duration) -> (n: u128)
    ensures
        n == duration_nanos(*d),
;

/// Clamp a nanosecond count to what the clock can represent.
pub open spec fn clamp_nanos(n: int) -> nat {
    if n <= 0 {
        0
    } else if n >= MAX_NANOS {
        MAX_NANOS as nat
    } else {
        n as nat
    }
}

/// A non-negative span of simulated time.
#[derive(Debug, Copy, Clone, PartialEq, Eq, Structural)]
pub struct SimTimeDelta {
    nanos: u128,
}

impl View for SimTimeDelta {
    type V = nat;

    closed spec fn view(&self) -> nat {
        self.nanos as nat
    }
}

impl SimTimeDelta {
    #[verifier::type_invariant]
    spec fn in_range(self) -> bool {
        self.nanos <= MAX_NANOS
    }

    /// The span of the given length, in nanoseconds; lengths beyond
    /// `MAX_NANOS` stand for `MAX_NANOS`.
    pub closed spec fn of_nanos(n: nat) -> SimTimeDelta {
        SimTimeDelta { nanos: clamp_nanos(n as int) as u128 }
    }

    pub broadcast proof fn lemma_of_nanos(n: nat)
        ensures
            (#[trigger] Self::of_nanos(n))@ == clamp_nanos(n as int),
    {
    }

    /// Two spans of the same length are the same span.
    pub broadcast proof fn lemma_view_injective(a: SimTimeDelta, b: SimTimeDelta)
        requires
            #[trigger] a@ == #[trigger] b@,
        ensures
            a == b,
    {
    }

    pub fn from_duration(delta: Duration) -> (r: Self)
        ensures
            r@ == clamp_nanos(duration_nanos(delta) as int),
    {
        Self::from(delta)
    }

    pub fn from(delta: Duration) -> (r: Self)
        ensures
            r@ == clamp_nanos(duration_nanos(delta) as int),
    {
        let n: u128 = delta.as_nanos();
        Self::from_nanos(n)
    }

    pub fn from_nanos(n: u128) -> (r: Self)
        ensures
            r@ == clamp_nanos(n as int),
            r == Self::of_nanos(n as nat),
    {
        if n > MAX_NANOS {
            SimTimeDelta { nanos: MAX_NANOS }
        } else {
            SimTimeDelta { nanos: n }
        }
    }

    pub fn from_secs(secs: u64) -> (r: Self)
        ensures
            r@ == secs * NANOS_PER_SEC,
    {
        SimTimeDelta { nanos: (secs as u128) * NANOS_PER_SEC }
    }

    pub fn from_millis(millis: u64) -> (r: Self)
        ensures
            r@ == millis * NANOS_PER_MILLI,
    {
        SimTimeDelta { nanos: (millis as u128) * NANOS_PER_MILLI }
    }

    pub fn from_micros(micros: u64) -> (r: Self)
        ensures
            r@ == micros * NANOS_PER_MICRO,
    {
        SimTimeDelta { nanos: (micros as u128) * NANOS_PER_MICRO }
    }

    pub fn as_nanos(&self) -> (r: u128)
        ensures
            r == self@,
            r <= MAX_NANOS,
    {
        proof {
            use_type_invariant(self);
        }
        self.nanos
    }
}

/// The empty span.
pub fn no_delta() -> (r: SimTimeDelta)
    ensures
        r@ == 0,
{
    SimTimeDelta::from_nanos(0)
}

/// A point on the simulated clock, counted from the start of the run.
#[derive(Debug, Copy, Clone, PartialEq, Eq, Structural, PartialOrd, Ord)]
pub struct SimTime {
    nanos: u128,
}

impl View for SimTime {
    type V = nat;

    closed spec fn view(&self) -> nat {
        self.nanos as nat
    }
}

impl Default for SimTime {
    fn default() -> (r: Self)
        ensures
            r@ == 0,
    {
        SimTime { nanos: 0 }
    }
}

impl SimTime {
    #[verifier::type_invariant]
    spec fn in_range(self) -> bool {
        self.nanos <= MAX_NANOS
    }

    /// The point that lies the given number of nanoseconds after the start;
    /// counts beyond `MAX_NANOS` stand for `MAX_NANOS`.
    pub closed spec fn of_nanos(n: nat) -> SimTime {
        SimTime { nanos: clamp_nanos(n as int) as u128 }
    }

    pub broadcast proof fn lemma_of_nanos(n: nat)
        ensures
            (#[trigger] Self::of_nanos(n))@ == clamp_nanos(n as int),
    {
    }

    /// Two points with the same distance from the start are the same point.
    pub broadcast proof fn lemma_view_injective(a: SimTime, b: SimTime)
        requires
            #[trigger] a@ == #[trigger] b@,
        ensures
            a == b,
    {
    }

    pub fn from_nanos(n: u128) -> (r: Self)
        ensures
            r@ == clamp_nanos(n as int),
            r == Self::of_nanos(n as nat),
    {
        if n > MAX_NANOS {
            SimTime { nanos: MAX_NANOS }
        } else {
            SimTime { nanos: n }
        }
    }

    /// Move the clock forward to `new_time`. The clock never runs
    /// backwards, so `new_time` must not lie before the current value.
    pub fn advance_to(&mut self, new_time: SimTime)
        requires
            old(self)@ <= new_time@,
        ensures
            *final(self) == new_time,
    {
        proof {
            use_type_invariant(new_time);
        }
        self.nanos = new_time.nanos;
    }

    pub fn is_zero(&self) -> (r: bool)
        ensures
            r == (self@ == 0),
    {
        self.nanos == 0
    }

    /// Whole seconds since the start of the run.
    pub fn as_rounds(&self) -> (r: u64)
        ensures
            r == self@ / (NANOS_PER_SEC as nat),
    {
        proof {
            use_type_invariant(self);
        }
        (self.nanos / NANOS_PER_SEC) as u64
    }

    /// Whole milliseconds since the start of the run.
    pub fn as_millis(&self) -> (r: u128)
        ensures
            r == self@ / (NANOS_PER_MILLI as nat),
    {
        self.nanos / NANOS_PER_MILLI
    }

    pub fn as_nanos(&self) -> (r: u128)
        ensures
            r == self@,
            r <= MAX_NANOS,
    {
        proof {
            use_type_invariant(self);
        }
        self.nanos
    }

    /// `self` lies strictly before `other`.
    pub fn is_before(&self, other: &SimTime) -> (r: bool)
        ensures
            r == (self@ < other@),
    {
        self.nanos < other.nanos
    }
}

impl std::ops::Add<SimTimeDelta> for SimTime {
    type Output = SimTime;

    /// The point `rhs` after `self`, held at `MAX_NANOS` where the clock
    /// cannot represent the sum.
    fn add(self, rhs: SimTimeDelta) -> (r: SimTime)
        ensures
            r@ == clamp_nanos((self@ + rhs@) as int),
    {
        proof {
            use_type_invariant(self);
            use_type_invariant(rhs);
        }
        let sum: u128 = self.nanos + rhs.nanos;
        if sum > MAX_NANOS {
            SimTime { nanos: MAX_NANOS }
        } else {
            SimTime { nanos: sum }
        }
    }
}

impl AddSpecImpl<SimTimeDelta> for SimTime {
    open spec fn obeys_add_spec() -> bool {
        true
    }

    open spec fn add_req(self, rhs: SimTimeDelta) -> bool {
        true
    }

    open spec fn add_spec(self, rhs: SimTimeDelta) -> SimTime {
        SimTime::of_nanos(self@ + rhs@)
    }
}

impl std::ops::Sub<SimTime> for SimTime {
    type Output = SimTimeDelta;

    /// The span from `rhs` to `self`; empty where `rhs` is the later point.
    fn sub(self, rhs: SimTime) -> (r: SimTimeDelta)
        ensures
            r@ == clamp_nanos(self@ - rhs@),
    {
        proof {
            use_type_invariant(self);
            use_type_invariant(rhs);
        }
        if self.nanos < rhs.nanos {
            SimTimeDelta { nanos: 0 }
        } else {
            SimTimeDelta { nanos: self.nanos - rhs.nanos }
        }
    }
}

impl SubSpecImpl<SimTime> for SimTime {
    open spec fn obeys_sub_spec() -> bool {
        true
    }

    open spec fn sub_req(self, rhs: SimTime) -> bool {
        true
    }

    open spec fn sub_spec(self, rhs: SimTime) -> SimTimeDelta {
        SimTimeDelta::of_nanos(clamp_nanos(self@ - rhs@))
    }
}

} // verus!
