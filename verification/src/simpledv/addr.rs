//! Addresses: of a router's interface, and of a host that a route leads to.

use crate::basicnet::types::{InterfaceId, RouterId};
use vstd::prelude::*;

verus! {

/// The address of one interface of one router.
#[derive(Clone, Copy, PartialEq, Eq, Structural, Debug)]
pub struct InterfaceAddress {
    pub router_id: RouterId,
    pub interface_id: InterfaceId,
}

/// Where a packet is meant to go: to one interface, or to whoever is at the
/// other end of the link.
#[derive(Clone, Copy, PartialEq, Eq, Structural, Debug)]
pub enum SimpleAddress {
    UnicastAddress(InterfaceAddress),
    MulticastAddress,
}

/// The address of a host: the router and the interface it is attached to.
#[derive(Clone, Copy, PartialEq, Eq, Structural, Hash, Debug)]
pub struct HostAddr {
    pub router_id: RouterId,
    pub interface_id: InterfaceId,
}

} // verus!
