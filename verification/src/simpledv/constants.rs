//! The protocol's fixed parameters.

use crate::simtime::{SimTimeDelta, NANOS_PER_SEC};
use vstd::prelude::*;

verus! {

/// Seconds between two Hellos on an interface.
pub const HELLO_INTERVAL_SEC: u64 = 5;

/// Seconds after the last Hello at which a neighbor counts as lost: three
/// Hello intervals.
pub const HOLD_TIME_SEC: u64 = 15;

/// The hop count that stands for "unreachable".
pub const MAX_HOP_COUNT: usize = 15;

pub open spec fn hello_interval_nanos() -> nat {
    (HELLO_INTERVAL_SEC * NANOS_PER_SEC) as nat
}

pub open spec fn hold_time_nanos() -> nat {
    (HOLD_TIME_SEC * NANOS_PER_SEC) as nat
}

pub fn hello_interval() -> (r: SimTimeDelta)
    ensures
        r@ == hello_interval_nanos(),
{
    SimTimeDelta::from_secs(HELLO_INTERVAL_SEC)
}

pub fn hold_time() -> (r: SimTimeDelta)
    ensures
        r@ == hold_time_nanos(),
{
    SimTimeDelta::from_secs(HOLD_TIME_SEC)
}

} // verus!
