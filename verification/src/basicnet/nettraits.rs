//! What the layers of a router ask of each other.

use crate::basicnet::simbase::SimBase;
use crate::basicnet::types::{InterfaceId, RouterId};
use crate::keys::ChannelId;
use crate::scheduler::{EventType, MessageSendEvent, Scheduler};
use crate::simtime::{SimTime, SimTimeDelta};
use vstd::prelude::*;

verus! {

/// What a control plane asks of the router that hosts it.
#[derive(Debug)]
pub enum ControlRequest<P, T> {
    /// Send `packet` on `interface`.
    Send { interface: InterfaceId, packet: P },
    /// Hand `timer` back after `delay`.
    Timer { delay: SimTimeDelta, timer: T },
    /// Abort the run: the protocol's rules were broken.
    Stop,
}

/// Someone who wants to know that an interface came up.
pub trait InterfaceEventListener: Sized {
    type Packet;

    type Timer;

    /// Whether the listener can be told of its interfaces now.
    spec fn listening(&self) -> bool;

    /// The number of interfaces that the listener knows.
    spec fn known_interfaces(&self) -> nat;

    /// What `on_interface_up` does: it turns `pre` into `post` and asks for
    /// `out`.
    spec fn told(
        pre: &Self,
        post: &Self,
        interface_id: InterfaceId,
        out: Seq<ControlRequest<Self::Packet, Self::Timer>>,
    ) -> bool;

    fn on_interface_up(&mut self, interface_id: InterfaceId) -> (r: Vec<
        ControlRequest<Self::Packet, Self::Timer>,
    >)
        requires
            old(self).listening(),
            interface_id@ < old(self).known_interfaces(),
        ensures
            final(self).listening(),
            final(self).known_interfaces() == old(self).known_interfaces(),
            Self::told(old(self), final(self), interface_id, r@),
    ;
}

/// The lowest layer of a router: it puts packets on channels.
pub trait BottomLayer<M>: Sized {
    /// Whether `packet` can be sent on `if_id`.
    spec fn can_send(&self, if_id: InterfaceId, packet: &M) -> bool;

    /// The channel behind the interface `if_id`.
    spec fn channel_of(&self, if_id: InterfaceId) -> ChannelId;

    /// Hand `packet` to the channel behind `if_id`, on behalf of the
    /// component that `sim` stands for.
    fn send_packet<E>(&self, if_id: InterfaceId, packet: M, sim: &SimBase, sched: &mut Scheduler<E, M>)
        requires
            self.can_send(if_id, &packet),
        ensures
            final(sched)@ == old(sched)@.schedule(
                0,
                EventType::MsgSendEvent(
                    MessageSendEvent {
                        sender: sim.id(),
                        channel: self.channel_of(if_id),
                        message: packet,
                    },
                ),
            ),
    ;
}

/// The control plane of a router: the protocol that decides what the
/// router sends. It is told of interfaces, packets and timers, and answers
/// with requests.
///
/// Interfaces are added, in the order of their numbers, before `start`;
/// everything else happens after it.
pub trait ControlPlane: Sized {
    type Packet;

    type Timer;

    /// What the control plane requires of its own state.
    spec fn inv(&self) -> bool;

    /// The number of interfaces added so far.
    spec fn interface_count(&self) -> nat;

    /// Whether `start` has been called.
    spec fn started(&self) -> bool;

    /// What `new` makes.
    spec fn made_for(made: &Self, router_id: RouterId) -> bool;

    /// What `add_interface` does: it turns `pre` into `post`.
    spec fn add_interface_effect(pre: &Self, post: &Self, interface: InterfaceId) -> bool;

    /// What `start` does.
    spec fn start_effect(pre: &Self, post: &Self) -> bool;

    /// What `terminate` does.
    spec fn terminate_effect(pre: &Self, post: &Self) -> bool;

    /// What `on_interface_up` does: it turns `pre` into `post` and asks for
    /// `out`.
    spec fn interface_up_effect(
        pre: &Self,
        post: &Self,
        interface_id: InterfaceId,
        out: Seq<ControlRequest<Self::Packet, Self::Timer>>,
    ) -> bool;

    /// What `on_interface_down` does.
    spec fn interface_down_effect(
        pre: &Self,
        post: &Self,
        interface_id: InterfaceId,
        out: Seq<ControlRequest<Self::Packet, Self::Timer>>,
    ) -> bool;

    /// What `receive_packet` does.
    spec fn packet_effect(
        pre: &Self,
        post: &Self,
        if_id: InterfaceId,
        packet: Self::Packet,
        now: SimTime,
        out: Seq<ControlRequest<Self::Packet, Self::Timer>>,
    ) -> bool;

    /// What `on_timeout` does.
    spec fn timeout_effect(
        pre: &Self,
        post: &Self,
        ev: Self::Timer,
        now: SimTime,
        out: Seq<ControlRequest<Self::Packet, Self::Timer>>,
    ) -> bool;

    fn new(router_id: RouterId) -> (r: Self)
        ensures
            r.inv(),
            r.interface_count() == 0,
            !r.started(),
            Self::made_for(&r, router_id),
    ;

    /// Add an interface. Called from `Component::add_channel`, that is,
    /// before the component is initialized.
    fn add_interface(&mut self, interface: InterfaceId)
        requires
            old(self).inv(),
            !old(self).started(),
            interface@ == old(self).interface_count(),
        ensures
            final(self).inv(),
            !final(self).started(),
            final(self).interface_count() == old(self).interface_count() + 1,
            Self::add_interface_effect(old(self), final(self), interface),
    ;

    fn start(&mut self)
        requires
            old(self).inv(),
            !old(self).started(),
        ensures
            final(self).inv(),
            final(self).started(),
            final(self).interface_count() == old(self).interface_count(),
            Self::start_effect(old(self), final(self)),
    ;

    fn on_interface_up(&mut self, interface_id: InterfaceId) -> (r: Vec<
        ControlRequest<Self::Packet, Self::Timer>,
    >)
        requires
            old(self).inv(),
            old(self).started(),
            interface_id@ < old(self).interface_count(),
        ensures
            final(self).inv(),
            final(self).started(),
            final(self).interface_count() == old(self).interface_count(),
            Self::interface_up_effect(old(self), final(self), interface_id, r@),
    ;

    fn on_interface_down(&mut self, interface_id: InterfaceId) -> (r: Vec<
        ControlRequest<Self::Packet, Self::Timer>,
    >)
        requires
            old(self).inv(),
            old(self).started(),
            interface_id@ < old(self).interface_count(),
        ensures
            final(self).inv(),
            final(self).started(),
            final(self).interface_count() == old(self).interface_count(),
            Self::interface_down_effect(old(self), final(self), interface_id, r@),
    ;

    /// A packet for the control plane arrived on `if_id` at `now`.
    fn receive_packet(&mut self, if_id: InterfaceId, packet: &Self::Packet, now: SimTime) -> (r:
        Vec<ControlRequest<Self::Packet, Self::Timer>>)
        requires
            old(self).inv(),
            old(self).started(),
            if_id@ < old(self).interface_count(),
        ensures
            final(self).inv(),
            final(self).started(),
            final(self).interface_count() == old(self).interface_count(),
            Self::packet_effect(old(self), final(self), if_id, *packet, now, r@),
    ;

    /// A timer that the control plane asked for fired at `now`.
    fn on_timeout(&mut self, ev: Self::Timer, now: SimTime) -> (r: Vec<
        ControlRequest<Self::Packet, Self::Timer>,
    >)
        requires
            old(self).inv(),
            old(self).started(),
        ensures
            final(self).inv(),
            final(self).started(),
            final(self).interface_count() == old(self).interface_count(),
            Self::timeout_effect(old(self), final(self), ev, now, r@),
    ;

    fn terminate(&mut self)
        requires
            old(self).inv(),
        ensures
            final(self).inv(),
            final(self).started() == old(self).started(),
            final(self).interface_count() == old(self).interface_count(),
            Self::terminate_effect(old(self), final(self)),
    ;
}

} // verus!
