//! The protocol's timers.

use crate::basicnet::types::InterfaceId;
use vstd::prelude::*;

verus! {

/// Time to send the next Hello on an interface.
#[derive(Clone, Copy, PartialEq, Eq, Structural, Debug)]
pub struct HelloTimer {
    pub interface_id: InterfaceId,
}

/// Time to look whether the neighbor on an interface has been heard of
/// lately.
#[derive(Clone, Copy, PartialEq, Eq, Structural, Debug)]
pub struct NeighborHoldTimer {
    pub interface_id: InterfaceId,
}

#[derive(Clone, Copy, PartialEq, Eq, Structural, Debug)]
pub enum SimpleDVTimer {
    Hello(HelloTimer),
    Hold(NeighborHoldTimer),
}

impl SimpleDVTimer {
    pub fn new_hello_timer(interface_id: InterfaceId) -> (r: Self)
        ensures
            r == SimpleDVTimer::Hello(HelloTimer { interface_id }),
    {
        SimpleDVTimer::Hello(HelloTimer { interface_id })
    }

    pub fn from_hello_timer(timer: HelloTimer) -> (r: Self)
        ensures
            r == SimpleDVTimer::Hello(timer),
    {
        SimpleDVTimer::Hello(timer)
    }

    pub fn new_hold_timer(interface_id: InterfaceId) -> (r: Self)
        ensures
            r == SimpleDVTimer::Hold(NeighborHoldTimer { interface_id }),
    {
        SimpleDVTimer::Hold(NeighborHoldTimer { interface_id })
    }

    pub fn from_hold_timer(timer: NeighborHoldTimer) -> (r: Self)
        ensures
            r == SimpleDVTimer::Hold(timer),
    {
        SimpleDVTimer::Hold(timer)
    }
}

} // verus!
