//! A network layer that does not forward: packets only go to and from the
//! control plane. It has no header of its own.

use crate::basicnet::nettraits::{BottomLayer, ControlPlane, ControlRequest, InterfaceEventListener};
use crate::basicnet::simbase::SimBase;
use crate::basicnet::types::{InterfaceId, RouterId};
use crate::scheduler::{EventType, MessageSendEvent, Scheduler};
use crate::simtime::SimTime;
use vstd::prelude::*;

verus! {

#[derive(Debug)]
pub struct DummyLayer3Header {}

pub struct DummyLayer3<CP: ControlPlane> {
    pub control_plane: CP,
}

impl<CP: ControlPlane> InterfaceEventListener for DummyLayer3<CP> {
    type Packet = CP::Packet;

    type Timer = CP::Timer;

    /// The control plane can be told of its interfaces once it is
    /// started.
    open spec fn listening(&self) -> bool {
        &&& self.control_plane.inv()
        &&& self.control_plane.started()
    }

    open spec fn known_interfaces(&self) -> nat {
        self.control_plane.interface_count()
    }

    /// The control plane is told.
    open spec fn told(
        pre: &Self,
        post: &Self,
        interface_id: InterfaceId,
        out: Seq<ControlRequest<CP::Packet, CP::Timer>>,
    ) -> bool {
        CP::interface_up_effect(&pre.control_plane, &post.control_plane, interface_id, out)
    }

    fn on_interface_up(&mut self, interface_id: InterfaceId) -> (r: Vec<
        ControlRequest<CP::Packet, CP::Timer>,
    >) {
        self.control_plane.on_interface_up(interface_id)
    }
}

impl<CP: ControlPlane> DummyLayer3<CP> {
    pub fn new(router_id: RouterId) -> (r: Self)
        ensures
            r.control_plane.inv(),
            r.control_plane.interface_count() == 0,
            !r.control_plane.started(),
            CP::made_for(&r.control_plane, router_id),
    {
        DummyLayer3 { control_plane: CP::new(router_id) }
    }

    pub fn add_interface(&mut self, if_id: InterfaceId)
        requires
            old(self).control_plane.inv(),
            !old(self).control_plane.started(),
            if_id@ == old(self).control_plane.interface_count(),
        ensures
            final(self).control_plane.inv(),
            !final(self).control_plane.started(),
            final(self).control_plane.interface_count() == old(self).control_plane.interface_count()
                + 1,
            CP::add_interface_effect(&old(self).control_plane, &final(self).control_plane, if_id),
    {
        self.control_plane.add_interface(if_id);
    }

    pub fn start(&mut self)
        requires
            old(self).control_plane.inv(),
            !old(self).control_plane.started(),
        ensures
            final(self).control_plane.inv(),
            final(self).control_plane.started(),
            final(self).control_plane.interface_count() == old(self).control_plane.interface_count(),
            CP::start_effect(&old(self).control_plane, &final(self).control_plane),
    {
        self.control_plane.start();
    }

    pub fn on_interface_down(&mut self, interface: InterfaceId) -> (r: Vec<
        ControlRequest<CP::Packet, CP::Timer>,
    >)
        requires
            old(self).control_plane.inv(),
            old(self).control_plane.started(),
            interface@ < old(self).control_plane.interface_count(),
        ensures
            final(self).control_plane.inv(),
            final(self).control_plane.started(),
            final(self).control_plane.interface_count() == old(self).control_plane.interface_count(),
            CP::interface_down_effect(&old(self).control_plane, &final(self).control_plane, interface, r@),
    {
        self.control_plane.on_interface_down(interface)
    }

    pub fn receive_packet(&mut self, if_id: InterfaceId, packet: &CP::Packet, now: SimTime) -> (r: Vec<
        ControlRequest<CP::Packet, CP::Timer>,
    >)
        requires
            old(self).control_plane.inv(),
            old(self).control_plane.started(),
            if_id@ < old(self).control_plane.interface_count(),
        ensures
            final(self).control_plane.inv(),
            final(self).control_plane.started(),
            final(self).control_plane.interface_count() == old(self).control_plane.interface_count(),
            CP::packet_effect(&old(self).control_plane, &final(self).control_plane, if_id, *packet, now, r@),
    {
        self.control_plane.receive_packet(if_id, packet, now)
    }

    pub fn on_timeout(&mut self, ev: CP::Timer, now: SimTime) -> (r: Vec<
        ControlRequest<CP::Packet, CP::Timer>,
    >)
        requires
            old(self).control_plane.inv(),
            old(self).control_plane.started(),
        ensures
            final(self).control_plane.inv(),
            final(self).control_plane.started(),
            final(self).control_plane.interface_count() == old(self).control_plane.interface_count(),
            CP::timeout_effect(&old(self).control_plane, &final(self).control_plane, ev, now, r@),
    {
        self.control_plane.on_timeout(ev, now)
    }

    /// Hand `packet` down to `layer2` for the interface `if_id`.
    pub fn send_packet<M, L2: BottomLayer<M>, E>(
        &self,
        if_id: InterfaceId,
        packet: M,
        layer2: &L2,
        sim: &SimBase,
        sched: &mut Scheduler<E, M>,
    )
        requires
            layer2.can_send(if_id, &packet),
        ensures
            final(sched)@ == old(sched)@.schedule(
                0,
                EventType::MsgSendEvent(
                    MessageSendEvent {
                        sender: sim.id(),
                        channel: layer2.channel_of(if_id),
                        message: packet,
                    },
                ),
            ),
    {
        layer2.send_packet(if_id, packet, sim, sched);
    }

    pub fn terminate(&mut self)
        requires
            old(self).control_plane.inv(),
        ensures
            final(self).control_plane.inv(),
            final(self).control_plane.started() == old(self).control_plane.started(),
            final(self).control_plane.interface_count() == old(self).control_plane.interface_count(),
            CP::terminate_effect(&old(self).control_plane, &final(self).control_plane),
    {
        self.control_plane.terminate();
    }
}

} // verus!
