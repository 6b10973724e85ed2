//! The neighbor table: one entry per interface of the router, with what is
//! known of the router at the other end of the link.

use crate::basicnet::types::{InterfaceId, RouterId};
use crate::simpledv::addr::InterfaceAddress;
use crate::simtime::SimTime;
use vstd::prelude::*;

verus! {

/// What an interface is attached to: a host, or a router that speaks the
/// routing protocol.
#[derive(Debug, Clone, Copy, PartialEq, Eq, Structural)]
pub enum InterfaceType {
    EndSystem,
    SimpleDV,
}

#[derive(Debug, Clone, Copy)]
pub struct NeighborTableEntry {
    pub interface_id: InterfaceId,
    pub interface_type: InterfaceType,
    /// This router's address on the interface.
    pub my_addr: InterfaceAddress,
    /// The neighbor's address, once a Hello has told it.
    pub other_addr: Option<InterfaceAddress>,
    pub last_hello_received: SimTime,
    pub is_up: bool,
}

impl NeighborTableEntry {
    /// The interface speaks the routing protocol.
    pub open spec fn peer(self) -> bool {
        self.interface_type == InterfaceType::SimpleDV
    }

    /// The interface speaks the routing protocol, is up, and its neighbor
    /// is known.
    pub open spec fn active(self) -> bool {
        self.interface_type == InterfaceType::SimpleDV && self.other_addr is Some && self.is_up
    }

    /// The entry of an interface that was just created: down, and with no
    /// neighbor known.
    pub open spec fn fresh(
        router_id: RouterId,
        interface_id: InterfaceId,
        interface_type: InterfaceType,
    ) -> NeighborTableEntry {
        NeighborTableEntry {
            interface_id,
            interface_type,
            my_addr: InterfaceAddress { router_id, interface_id },
            other_addr: None,
            last_hello_received: SimTime::of_nanos(0),
            is_up: false,
        }
    }

    /// The entry with the interface up.
    pub open spec fn raised(self) -> NeighborTableEntry {
        NeighborTableEntry { is_up: true, ..self }
    }

    /// The entry after a Hello from `addr` was received at `now`.
    pub open spec fn heard(self, addr: InterfaceAddress, now: SimTime) -> NeighborTableEntry {
        NeighborTableEntry { other_addr: Some(addr), last_hello_received: now, ..self }
    }

    /// The entry after the neighbor was lost.
    pub open spec fn forgotten(self) -> NeighborTableEntry {
        NeighborTableEntry { other_addr: None, last_hello_received: SimTime::of_nanos(0), ..self }
    }

    /// The entry after the interface went down.
    pub open spec fn lowered(self) -> NeighborTableEntry {
        NeighborTableEntry {
            other_addr: None,
            last_hello_received: SimTime::of_nanos(0),
            is_up: false,
            ..self
        }
    }

    fn new(router_id: RouterId, interface_id: InterfaceId, interface_type: InterfaceType) -> (r:
        Self)
        ensures
            r == Self::fresh(router_id, interface_id, interface_type),
    {
        NeighborTableEntry {
            interface_id,
            interface_type,
            my_addr: InterfaceAddress { router_id, interface_id },
            other_addr: None,
            last_hello_received: SimTime::from_nanos(0),
            is_up: false,
        }
    }

    pub fn up(&mut self)
        ensures
            *final(self) == old(self).raised(),
    {
        self.is_up = true;
    }

    pub fn get_interface_id(&self) -> (r: InterfaceId)
        ensures
            r == self.interface_id,
    {
        self.interface_id
    }

    pub fn get_my_addr(&self) -> (r: InterfaceAddress)
        ensures
            r == self.my_addr,
    {
        self.my_addr
    }

    pub fn is_simpledv_interface(&self) -> (r: bool)
        ensures
            r == self.peer(),
    {
        self.interface_type == InterfaceType::SimpleDV
    }

    pub fn is_active_simpledv_interface(&self) -> (r: bool)
        ensures
            r == self.active(),
    {
        self.interface_type == InterfaceType::SimpleDV && self.other_addr.is_some() && self.is_up
    }

    /// Take the interface down and forget the neighbor. Returns whether a
    /// neighbor that speaks the routing protocol was known.
    pub fn set_interface_down(&mut self) -> (r: bool)
        ensures
            *final(self) == old(self).lowered(),
            r == (old(self).peer() && old(self).other_addr is Some),
    {
        let had = self.interface_type == InterfaceType::SimpleDV && self.other_addr.is_some();
        self.is_up = false;
        self.other_addr = None;
        self.last_hello_received = SimTime::from_nanos(0);
        had
    }
}

#[derive(Debug)]
pub struct NeighborTable {
    table: Vec<NeighborTableEntry>,
}

impl View for NeighborTable {
    type V = Seq<NeighborTableEntry>;

    closed spec fn view(&self) -> Seq<NeighborTableEntry> {
        self.table@
    }
}

/// Every entry stands at the position that its interface number gives.
pub open spec fn in_interface_order(t: Seq<NeighborTableEntry>) -> bool {
    forall|i: int| 0 <= i < t.len() ==> (#[trigger] t[i]).interface_id@ == i
}

impl NeighborTable {
    pub fn new() -> (r: Self)
        ensures
            r@.len() == 0,
    {
        NeighborTable { table: Vec::new() }
    }

    /// Add the entry of the interface `interface_id`, which must be the
    /// next in number.
    pub fn add_entry_for_interface(
        &mut self,
        router_id: RouterId,
        interface_id: InterfaceId,
        interface_type: InterfaceType,
    )
        requires
            interface_id@ == old(self)@.len(),
        ensures
            final(self)@ == old(self)@.push(
                NeighborTableEntry::fresh(router_id, interface_id, interface_type),
            ),
    {
        self.table.push(NeighborTableEntry::new(router_id, interface_id, interface_type));
    }

    pub fn len(&self) -> (r: usize)
        ensures
            r == self@.len(),
    {
        self.table.len()
    }

    /// The entry of the interface `idx`.
    pub fn entry(&self, idx: InterfaceId) -> (r: &NeighborTableEntry)
        requires
            idx@ < self@.len(),
        ensures
            *r == self@[idx@ as int],
    {
        &self.table[idx.as_idx()]
    }

    /// Replace the entry of the interface `idx`.
    pub fn set_entry(&mut self, idx: InterfaceId, entry: NeighborTableEntry)
        requires
            idx@ < old(self)@.len(),
        ensures
            final(self)@ == old(self)@.update(idx@ as int, entry),
    {
        self.table[idx.as_idx()] = entry;
    }

    /// The entries in interface order.
    pub fn to_vec(&self) -> (r: Vec<NeighborTableEntry>)
        ensures
            r@ == self@,
    {
        let mut out: Vec<NeighborTableEntry> = Vec::new();
        let mut i: usize = 0;
        while i < self.table.len()
            invariant
                i <= self.table@.len(),
                out@ == self.table@.take(i as int),
            decreases self.table@.len() - i,
        {
            out.push(self.table[i]);
            proof {
                assert(self.table@.take(i + 1) =~= self.table@.take(i as int).push(
                    self.table@[i as int],
                ));
            }
            i += 1;
        }
        proof {
            assert(self.table@.take(i as int) =~= self.table@);
        }
        out
    }
}

} // verus!
