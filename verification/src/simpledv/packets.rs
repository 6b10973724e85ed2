//! The protocol's packets: Hello, and Update with one route.

use crate::simpledv::addr::{HostAddr, InterfaceAddress, SimpleAddress};
use crate::simpledv::metric::Metric;
use vstd::prelude::*;

verus! {

/// A destination and the sender's distance to it.
#[derive(Clone, Copy, PartialEq, Eq, Structural, Debug)]
pub struct Route {
    pub addr: HostAddr,
    pub metric: Metric,
}

#[derive(Clone, Copy, PartialEq, Eq, Structural, Debug)]
pub enum SimpleDVPacketType {
    Hello,
    Update(Route),
}

#[derive(Clone, Copy, PartialEq, Eq, Structural, Debug)]
pub struct SimpleDVPacket {
    pub source: InterfaceAddress,
    pub destination: SimpleAddress,
    pub content: SimpleDVPacketType,
}

impl SimpleDVPacket {
    /// A Hello from `my_addr` to whoever is at the other end of the link.
    pub fn new_hello(my_addr: &InterfaceAddress) -> (r: Self)
        ensures
            r == Self::hello(*my_addr),
    {
        SimpleDVPacket {
            source: *my_addr,
            destination: SimpleAddress::MulticastAddress,
            content: SimpleDVPacketType::Hello,
        }
    }

    /// An Update from `my_addr` to `other_addr` that advertises `adv_addr`
    /// at distance `metric`.
    pub fn new_update(
        my_addr: &InterfaceAddress,
        other_addr: InterfaceAddress,
        adv_addr: &HostAddr,
        metric: Metric,
    ) -> (r: Self)
        ensures
            r == Self::update(*my_addr, other_addr, *adv_addr, metric),
    {
        SimpleDVPacket {
            source: *my_addr,
            destination: SimpleAddress::UnicastAddress(other_addr),
            content: SimpleDVPacketType::Update(Route { addr: *adv_addr, metric }),
        }
    }

    pub open spec fn hello(my_addr: InterfaceAddress) -> SimpleDVPacket {
        SimpleDVPacket {
            source: my_addr,
            destination: SimpleAddress::MulticastAddress,
            content: SimpleDVPacketType::Hello,
        }
    }

    pub open spec fn update(
        my_addr: InterfaceAddress,
        other_addr: InterfaceAddress,
        adv_addr: HostAddr,
        metric: Metric,
    ) -> SimpleDVPacket {
        SimpleDVPacket {
            source: my_addr,
            destination: SimpleAddress::UnicastAddress(other_addr),
            content: SimpleDVPacketType::Update(Route { addr: adv_addr, metric }),
        }
    }
}

} // verus!
