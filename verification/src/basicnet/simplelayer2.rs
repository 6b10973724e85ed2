//! A link layer for point-to-point links only. Each channel of the router
//! is one interface; a frame carries nothing but the tag of the layer that
//! its content is for. There are no addresses and there is no control
//! plane.

use crate::basicnet::nettraits::{BottomLayer, ControlRequest, InterfaceEventListener};
use crate::basicnet::packet::Packet;
use crate::basicnet::simbase::SimBase;
use crate::basicnet::types::InterfaceId;
use crate::keys::ChannelId;
use crate::scheduler::Scheduler;
use std::marker::PhantomData;
use vstd::prelude::*;

verus! {

broadcast use InterfaceId::lemma_view_injective;

/// The layers that the content of a frame can be for.
#[derive(Debug, Copy, Clone, PartialEq, Eq, Structural)]
pub enum SimpleL2NextHeader {
    Layer3,
}

/// The header of a frame.
#[derive(Debug, PartialEq, Eq, Structural)]
pub struct P2PPacket<L2NextHeaderT> {
    pub next_header: L2NextHeaderT,
}

impl<L2NextHeaderT: Copy> Clone for P2PPacket<L2NextHeaderT> {
    fn clone(&self) -> (r: Self)
        ensures
            r == *self,
    {
        P2PPacket { next_header: self.next_header }
    }
}

impl<L2NextHeaderT: Copy> Copy for P2PPacket<L2NextHeaderT> {

}

/// A header type of which some values are frame headers.
pub trait LinkFrame<N>: Sized {
    /// The frame header that this is, if it is one.
    spec fn frame(&self) -> Option<P2PPacket<N>>;

    fn as_frame(&self) -> (r: Option<P2PPacket<N>>)
        ensures
            r == self.frame(),
    ;
}

/// One interface: the channel behind it, and whether it is up.
#[derive(Debug, Copy, Clone)]
pub struct P2PLayer2Instance {
    pub interface_id: InterfaceId,
    pub channel_id: ChannelId,
    pub is_up: bool,
}

impl P2PLayer2Instance {
    pub fn set_up(&mut self)
        ensures
            *final(self) == (P2PLayer2Instance { is_up: true, ..*old(self) }),
    {
        self.is_up = true;
    }
}

/// The number of the first interface behind which the channel `c` lies.
pub open spec fn first_on_channel(ifs: Seq<P2PLayer2Instance>, c: ChannelId) -> Option<int>
    decreases ifs.len(),
{
    if ifs.len() == 0 {
        None
    } else if ifs[0].channel_id == c {
        Some(0)
    } else {
        match first_on_channel(ifs.skip(1), c) {
            Some(k) => Some(k + 1),
            None => None,
        }
    }
}

/// `first_on_channel` finds the first interface on the channel, and finds
/// one exactly when there is one.
pub proof fn lemma_first_on_channel(ifs: Seq<P2PLayer2Instance>, c: ChannelId)
    ensures
        match first_on_channel(ifs, c) {
            Some(k) => 0 <= k < ifs.len() && ifs[k].channel_id == c && forall|j: int|
                0 <= j < k ==> (#[trigger] ifs[j]).channel_id != c,
            None => forall|j: int| 0 <= j < ifs.len() ==> (#[trigger] ifs[j]).channel_id != c,
        },
    decreases ifs.len(),
{
    if ifs.len() > 0 && ifs[0].channel_id != c {
        let rest = ifs.skip(1);
        lemma_first_on_channel(rest, c);
        match first_on_channel(rest, c) {
            Some(k) => {
                assert forall|j: int| 0 <= j < k + 1 implies (#[trigger] ifs[j]).channel_id != c by {
                    if j > 0 {
                        assert(ifs[j] == rest[j - 1]);
                    }
                }
            },
            None => {
                assert forall|j: int| 0 <= j < ifs.len() implies (#[trigger] ifs[j]).channel_id
                    != c by {
                    if j > 0 {
                        assert(ifs[j] == rest[j - 1]);
                    }
                }
            },
        }
    }
}

/// `states` are the states that a listener went through while it was told
/// of the interfaces `ifs` one after the other, and `outs` is what it
/// asked for each time.
pub open spec fn told_trace<L3: InterfaceEventListener>(
    ifs: Seq<P2PLayer2Instance>,
    states: Seq<L3>,
    outs: Seq<Seq<ControlRequest<L3::Packet, L3::Timer>>>,
) -> bool {
    &&& states.len() == ifs.len() + 1
    &&& outs.len() == ifs.len()
    &&& forall|k: int|
        0 <= k < ifs.len() ==> L3::told(
            #[trigger] &states[k],
            &states[k + 1],
            ifs[k].interface_id,
            outs[k],
        )
}

/// The listener `pre` was told of the interfaces `ifs` one after the
/// other, asked for `out` in all, and is `post` since.
pub open spec fn told_of_all<L3: InterfaceEventListener>(
    ifs: Seq<P2PLayer2Instance>,
    pre: &L3,
    post: &L3,
    out: Seq<ControlRequest<L3::Packet, L3::Timer>>,
) -> bool {
    exists|states: Seq<L3>, outs: Seq<Seq<ControlRequest<L3::Packet, L3::Timer>>>|
        #[trigger] told_trace(ifs, states, outs) && states[0] == *pre && states[ifs.len() as int]
            == *post && outs.flatten() == out
}

pub struct SimpleLayer2<NextHeaderT> {
    interfaces: Vec<P2PLayer2Instance>,
    marker: PhantomData<NextHeaderT>,
}

impl<NextHeaderT: Copy> SimpleLayer2<NextHeaderT> {
    /// The interfaces, by number.
    pub closed spec fn interfaces(&self) -> Seq<P2PLayer2Instance> {
        self.interfaces@
    }

    /// Every interface stands at the position that its number gives.
    pub open spec fn wf(&self) -> bool {
        forall|i: int|
            0 <= i < self.interfaces().len() ==> (#[trigger] self.interfaces()[i]).interface_id@ == i
    }

    /// The channels behind the interfaces.
    pub open spec fn channels(&self) -> Set<ChannelId> {
        Set::new(
            |c: ChannelId|
                exists|i: int|
                    0 <= i < self.interfaces().len() && (#[trigger] self.interfaces()[i]).channel_id
                        == c,
        )
    }

    pub fn new() -> (r: Self)
        ensures
            r.wf(),
            r.interfaces().len() == 0,
    {
        SimpleLayer2 { interfaces: Vec::new(), marker: PhantomData }
    }

    /// Create the interface for the channel `channel_id`. It is down.
    pub fn create_p2p_interface(&mut self, channel_id: ChannelId) -> (r: InterfaceId)
        requires
            old(self).wf(),
        ensures
            final(self).wf(),
            r@ == old(self).interfaces().len(),
            final(self).interfaces() == old(self).interfaces().push(
                P2PLayer2Instance { interface_id: r, channel_id, is_up: false },
            ),
    {
        let if_id = InterfaceId::from(self.interfaces.len());
        let if_ = P2PLayer2Instance { interface_id: if_id, channel_id, is_up: false };
        self.interfaces.push(if_);
        proof {
            assert forall|i: int| 0 <= i < self.interfaces().len() implies (
            #[trigger] self.interfaces()[i]).interface_id@ == i by {
                if i < old(self).interfaces().len() {
                    assert(self.interfaces()[i] == old(self).interfaces()[i]);
                }
            }
        }
        if_id
    }

    pub fn start(&mut self)
        ensures
            *final(self) == *old(self),
    {
    }

    /// The number of interfaces.
    pub fn interface_count(&self) -> (r: usize)
        ensures
            r == self.interfaces().len(),
    {
        self.interfaces.len()
    }

    /// The interface behind which the channel `channel_id` lies, if there
    /// is one: the first such.
    pub fn interface_of(&self, channel_id: ChannelId) -> (r: Option<InterfaceId>)
        requires
            self.wf(),
        ensures
            match r {
                Some(i) => first_on_channel(self.interfaces(), channel_id) == Some(i@ as int) && i@
                    < self.interfaces().len() && self.interfaces()[i@ as int].channel_id
                    == channel_id,
                None => first_on_channel(self.interfaces(), channel_id) is None && forall|j: int|
                    0 <= j < self.interfaces().len() ==> (#[trigger] self.interfaces()[j]).channel_id
                        != channel_id,
            },
    {
        let mut i: usize = 0;
        while i < self.interfaces.len()
            invariant
                i <= self.interfaces@.len(),
                forall|j: int|
                    0 <= j < i ==> (#[trigger] self.interfaces@[j]).channel_id != channel_id,
            decreases self.interfaces@.len() - i,
        {
            if self.interfaces[i].channel_id == channel_id {
                proof {
                    let ifs = self.interfaces();
                    lemma_first_on_channel(ifs, channel_id);
                    assert(ifs[i as int].channel_id == channel_id);
                    match first_on_channel(ifs, channel_id) {
                        Some(k) => {
                            if k < i {
                                assert(self.interfaces@[k].channel_id != channel_id);
                            }
                        },
                        None => {},
                    }
                }
                return Some(InterfaceId::from(i));
            }
            i += 1;
        }
        proof {
            let ifs = self.interfaces();
            lemma_first_on_channel(ifs, channel_id);
            match first_on_channel(ifs, channel_id) {
                Some(k) => {
                    assert(self.interfaces@[k].channel_id != channel_id);
                },
                None => {},
            }
        }
        None
    }

    /// Bring every interface up, in the order of their numbers, and tell
    /// `layer3` of each. Returns what `layer3` asks for.
    pub fn bring_up_interfaces<L3: InterfaceEventListener>(&mut self, layer3: &mut L3) -> (r: Vec<
        ControlRequest<L3::Packet, L3::Timer>,
    >)
        requires
            old(self).wf(),
            old(layer3).listening(),
            old(self).interfaces().len() <= old(layer3).known_interfaces(),
        ensures
            final(self).wf(),
            final(self).interfaces().len() == old(self).interfaces().len(),
            forall|i: int|
                0 <= i < old(self).interfaces().len() ==> (#[trigger] final(self).interfaces()[i])
                    == (P2PLayer2Instance { is_up: true, ..old(self).interfaces()[i] }),
            final(layer3).known_interfaces() == old(layer3).known_interfaces(),
            final(layer3).listening(),
            told_of_all(old(self).interfaces(), old(layer3), final(layer3), r@),
    {
        let mut out: Vec<ControlRequest<L3::Packet, L3::Timer>> = Vec::new();
        let n = self.interfaces.len();
        let ghost ifs = self.interfaces();
        let ghost mut states: Seq<L3> = seq![*layer3];
        let ghost mut outs: Seq<Seq<ControlRequest<L3::Packet, L3::Timer>>> = Seq::empty();
        proof {
            assert(outs.flatten() =~= out@);
        }
        let mut k: usize = 0;
        while k < n
            invariant
                ifs == old(self).interfaces(),
                states.len() == k + 1,
                outs.len() == k,
                states[0] == *old(layer3),
                states[k as int] == *layer3,
                outs.flatten() == out@,
                forall|j: int|
                    0 <= j < k ==> L3::told(
                        #[trigger] &states[j],
                        &states[j + 1],
                        ifs[j].interface_id,
                        outs[j],
                    ),
                old(self).interfaces().len() <= old(layer3).known_interfaces(),
                k <= n,
                n == self.interfaces@.len(),
                n == old(self).interfaces@.len(),
                old(self).wf(),
                forall|i: int|
                    0 <= i < k ==> (#[trigger] self.interfaces@[i]) == (P2PLayer2Instance {
                        is_up: true,
                        ..old(self).interfaces@[i]
                    }),
                forall|i: int| k <= i < n ==> (#[trigger] self.interfaces@[i]) == old(self).interfaces@[i],
                layer3.known_interfaces() == old(layer3).known_interfaces(),
                layer3.listening(),
            decreases n - k,
        {
            let mut if_ = self.interfaces[k];
            if_.set_up();
            self.interfaces[k] = if_;
            proof {
                assert(old(self).interfaces()[k as int].interface_id@ == k);
            }
            let ghost before = *layer3;
            let ghost asked = out@;
            let mut more = layer3.on_interface_up(if_.interface_id);
            proof {
                let longer = states.push(*layer3);
                let more_outs = outs.push(more@);
                assert forall|j: int| 0 <= j < k + 1 implies L3::told(
                    #[trigger] &longer[j],
                    &longer[j + 1],
                    ifs[j].interface_id,
                    more_outs[j],
                ) by {
                    if j < k {
                        assert(longer[j] == states[j] && longer[j + 1] == states[j + 1]);
                        assert(more_outs[j] == outs[j]);
                    } else {
                        assert(longer[j] == before);
                        assert(ifs[j].interface_id == if_.interface_id);
                    }
                }
                outs.lemma_flatten_push(more@);
                states = longer;
                outs = more_outs;
            }
            out.append(&mut more);
            proof {
                assert(out@ =~= asked + outs.last());
            }
            k += 1;
        }
        proof {
            assert(told_trace(ifs, states, outs));
        }
        out
    }

    /// Take the interface `if_id` down. It must be up.
    pub fn bring_down_interface(&mut self, if_id: InterfaceId)
        requires
            if_id@ < old(self).interfaces().len(),
            old(self).interfaces()[if_id@ as int].is_up,
        ensures
            final(self).interfaces() == old(self).interfaces().update(
                if_id@ as int,
                P2PLayer2Instance { is_up: false, ..old(self).interfaces()[if_id@ as int] },
            ),
    {
        let mut interface = self.interfaces[if_id.as_idx()];
        interface.is_up = false;
        self.interfaces[if_id.as_idx()] = interface;
    }

    pub fn is_interface_up(&self, if_id: InterfaceId) -> (r: bool)
        requires
            if_id@ < self.interfaces().len(),
        ensures
            r == self.interfaces()[if_id@ as int].is_up,
    {
        self.interfaces[if_id.as_idx()].is_up
    }

    /// A frame arrived on `if_id`. On an interface that is down it is
    /// ignored. Otherwise its header is read, and the layer that the
    /// content is for is returned. The top of `packet` must be a frame
    /// header.
    pub fn receive_packet<H: LinkFrame<NextHeaderT>>(&self, if_id: InterfaceId, packet: &mut Packet<H>) -> (r:
        Option<NextHeaderT>)
        requires
            if_id@ < self.interfaces().len(),
            old(packet).stack@.len() >= 1,
            old(packet).stack@.last().frame() is Some,
        ensures
            final(packet).stack@ == old(packet).stack@,
            if self.interfaces()[if_id@ as int].is_up {
                &&& r == Some(old(packet).stack@.last().frame().unwrap().next_header)
                &&& final(packet).next_header == if old(packet).stack@.len() >= 2 {
                    Some((old(packet).stack@.len() - 2) as usize)
                } else {
                    old(packet).next_header
                }
            } else {
                r is None && final(packet).next_header == old(packet).next_header
            },
    {
        let if_ = &self.interfaces[if_id.as_idx()];
        if !if_.is_up {
            // ignore packet
            return None;
        }
        let l2header = packet.unwrap_first().as_frame().unwrap();
        Some(l2header.next_header)
    }

    pub fn terminate(&mut self)
        ensures
            *final(self) == *old(self),
    {
    }
}

impl<NextHeaderT: Copy, H: LinkFrame<NextHeaderT>> BottomLayer<Box<Packet<H>>> for SimpleLayer2<
    NextHeaderT,
> {
    /// A packet can be sent on an interface that is up, if its top is a
    /// frame header.
    open spec fn can_send(&self, if_id: InterfaceId, packet: &Box<Packet<H>>) -> bool {
        &&& if_id@ < self.interfaces().len()
        &&& self.interfaces()[if_id@ as int].is_up
        &&& packet.stack@.len() > 0
        &&& packet.stack@.last().frame() is Some
    }

    open spec fn channel_of(&self, if_id: InterfaceId) -> ChannelId {
        self.interfaces()[if_id@ as int].channel_id
    }

    fn send_packet<E>(
        &self,
        if_id: InterfaceId,
        packet: Box<Packet<H>>,
        sim: &SimBase,
        sched: &mut Scheduler<E, Box<Packet<H>>>,
    ) {
        let channel = self.interfaces[if_id.as_idx()].channel_id;
        sim.send_msg_on_channel(channel, packet, sched);
    }
}

} // verus!
