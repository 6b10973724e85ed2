//! The router: a component that hosts the link layer, the network layer
//! and the routing protocol, and carries out what the protocol asks for.

use crate::basicnet::dummylayer3::DummyLayer3;
use crate::basicnet::nettraits::{ControlPlane, ControlRequest, InterfaceEventListener};
use crate::basicnet::packet::Packet;
use crate::basicnet::simbase::SimBase;
use crate::basicnet::simplelayer2::{
    first_on_channel, told_of_all, told_trace, LinkFrame, P2PLayer2Instance, P2PPacket,
    SimpleL2NextHeader, SimpleLayer2,
};
use crate::basicnet::types::{InterfaceId, RouterId};
use crate::component::{component_may_schedule, ChannelLabel, Component, ComponentBuilder};
use crate::keys::{dummy_component, ChannelId, ComponentId};
use crate::scheduler::{
    lemma_extended_fail, lemma_extended_refl, lemma_extended_step, ComponentEvent, EventType,
    MessageSendEvent, Scheduler, SchedulerView,
};
use crate::simpledv::addr::HostAddr;
use crate::simpledv::config::Config;
use crate::simpledv::packets::SimpleDVPacket;
use crate::simpledv::timer::SimpleDVTimer;
use crate::simpledv::{Request, SimpleDiv};
use crate::simtime::{no_delta, SimTime};
use crate::util::uid::UniqueId;
use vstd::prelude::*;

verus! {

/// An interface is to go down.
#[derive(Debug, Clone, Copy, PartialEq, Eq, Structural)]
pub struct InterfaceEvent {
    pub interface: InterfaceId,
    pub down: bool,
}

/// The wake-ups of a router.
#[derive(Debug, Clone, Copy, PartialEq, Eq, Structural)]
pub enum InternalEvent {
    RouterStartEvent,
    L3TimerEvent(SimpleDVTimer),
    InterfaceEvent(InterfaceEvent),
}

impl InternalEvent {
    pub fn new_router_start() -> (r: Self)
        ensures
            r == InternalEvent::RouterStartEvent,
    {
        InternalEvent::RouterStartEvent
    }
}

/// The headers that a packet between routers is made of.
#[derive(Debug, Clone, Copy, PartialEq, Eq, Structural)]
pub enum Header {
    Link(P2PPacket<SimpleL2NextHeader>),
    Routing(SimpleDVPacket),
}

impl LinkFrame<SimpleL2NextHeader> for Header {
    open spec fn frame(&self) -> Option<P2PPacket<SimpleL2NextHeader>> {
        match self {
            Header::Link(h) => Some(*h),
            Header::Routing(_) => None,
        }
    }

    fn as_frame(&self) -> (r: Option<P2PPacket<SimpleL2NextHeader>>) {
        match self {
            Header::Link(h) => Some(*h),
            Header::Routing(_) => None,
        }
    }
}

/// What travels between routers.
pub type Frame = Box<Packet<Header>>;

pub type Layer2 = SimpleLayer2<SimpleL2NextHeader>;

pub type Layer3 = DummyLayer3<SimpleDiv>;

/// What a router does with a frame.
pub enum Verdict {
    /// The frame cannot be: abort the run.
    Reject,
    /// The interface is down: drop the frame.
    Drop,
    /// Hand the packet, which arrived on the interface, to the protocol.
    Deliver(InterfaceId, SimpleDVPacket),
}

/// What a router with the interfaces `ifs` does with the frame `stack`,
/// whose reading position is `next_header`, from `channel`.
///
/// A frame from a channel that is none of the router's is rejected, and
/// so are a frame that does not start with a frame header, one that has
/// been read before, and one that holds no packet of the protocol below
/// its header. On an interface that is down the frame is dropped.
/// Otherwise the packet is delivered.
pub open spec fn verdict(
    ifs: Seq<P2PLayer2Instance>,
    channel: ChannelId,
    stack: Seq<Header>,
    next_header: Option<usize>,
) -> Verdict {
    match first_on_channel(ifs, channel) {
        None => Verdict::Reject,
        Some(i) => if stack.len() == 0 || stack.last().frame() is None || next_header is Some {
            Verdict::Reject
        } else if !ifs[i].is_up {
            Verdict::Drop
        } else if stack.len() < 2 {
            Verdict::Reject
        } else {
            match stack[stack.len() - 2] {
                Header::Routing(p) => Verdict::Deliver(ifs[i].interface_id, p),
                Header::Link(_) => Verdict::Reject,
            }
        },
    }
}

/// `frame` is the frame that carries `packet`: the packet with a frame
/// header on top, not read yet.
pub open spec fn frames(frame: Frame, packet: SimpleDVPacket) -> bool {
    &&& frame.stack@ == seq![
        Header::Routing(packet),
        Header::Link(P2PPacket { next_header: SimpleL2NextHeader::Layer3 }),
    ]
    &&& frame.next_header is None
}

/// The router `id` with the interfaces `ifs` carried out `req`, which
/// turned the event queue `before` into `after`.
///
/// A packet is framed and handed to the channel behind its interface; a
/// packet for an interface that does not exist or is down aborts the run.
/// A timer is scheduled as a wake-up of the router. A stop aborts the run.
pub open spec fn carried_one(
    before: SchedulerView<InternalEvent, Frame>,
    after: SchedulerView<InternalEvent, Frame>,
    ifs: Seq<P2PLayer2Instance>,
    id: ComponentId,
    req: Request,
) -> bool {
    match req {
        ControlRequest::Send { interface, packet } => if interface@ < ifs.len()
            && ifs[interface@ as int].is_up {
            exists|frame: Frame|
                #[trigger] frames(frame, packet) && after == before.schedule(
                    0,
                    EventType::MsgSendEvent(
                        MessageSendEvent {
                            sender: id,
                            channel: ifs[interface@ as int].channel_id,
                            message: frame,
                        },
                    ),
                )
        } else {
            after == before.fail()
        },
        ControlRequest::Timer { delay, timer } => after == before.schedule(
            delay@,
            EventType::ProcessEvent(
                ComponentEvent {
                    sender: id,
                    receiver: id,
                    event: Some(InternalEvent::L3TimerEvent(timer)),
                },
            ),
        ),
        ControlRequest::Stop => after == before.fail(),
    }
}

/// `queues` are the states that the event queue went through while the
/// router carried out `reqs` one after the other.
pub open spec fn carried_trace(
    queues: Seq<SchedulerView<InternalEvent, Frame>>,
    ifs: Seq<P2PLayer2Instance>,
    id: ComponentId,
    reqs: Seq<Request>,
) -> bool {
    &&& queues.len() == reqs.len() + 1
    &&& forall|k: int|
        0 <= k < reqs.len() ==> carried_one(#[trigger] queues[k], queues[k + 1], ifs, id, reqs[k])
}

/// The router `id` with the interfaces `ifs` carried out `reqs` one after
/// the other, which turned the event queue `before` into `after`.
pub open spec fn carried(
    before: SchedulerView<InternalEvent, Frame>,
    after: SchedulerView<InternalEvent, Frame>,
    ifs: Seq<P2PLayer2Instance>,
    id: ComponentId,
    reqs: Seq<Request>,
) -> bool {
    exists|queues: Seq<SchedulerView<InternalEvent, Frame>>|
        #[trigger] carried_trace(queues, ifs, id, reqs) && queues[0] == before
            && queues[reqs.len() as int] == after
}

/// The identifiers of the interfaces `ifs`.
pub open spec fn interface_ids(ifs: Seq<P2PLayer2Instance>) -> Seq<InterfaceId> {
    Seq::new(ifs.len(), |k: int| ifs[k].interface_id)
}

/// What a router does with a wake-up.
pub enum WakeUp {
    /// The wake-up cannot be: abort the run.
    Refuse,
    /// Start the protocol and bring the interfaces up.
    Start,
    /// Hand the timer to the protocol.
    Timer(SimpleDVTimer),
    /// Take the interface down and tell the protocol.
    InterfaceDown(InterfaceId),
}

/// What the router `r` does with the wake-up `event` from `sender`.
///
/// A wake-up is refused where it comes neither from the router itself nor
/// from outside the system, or carries nothing. So are a second start, a
/// timer or an interface event before the start, and an interface event
/// for an interface that does not exist or is down.
pub open spec fn wake_up(r: &Router, sender: ComponentId, event: Option<InternalEvent>) -> WakeUp {
    if sender != r.helper().id() && sender.idx() != usize::MAX {
        WakeUp::Refuse
    } else {
        match event {
            None => WakeUp::Refuse,
            Some(InternalEvent::RouterStartEvent) => if r.protocol().is_started() {
                WakeUp::Refuse
            } else {
                WakeUp::Start
            },
            Some(InternalEvent::L3TimerEvent(timer)) => if r.protocol().is_started() {
                WakeUp::Timer(timer)
            } else {
                WakeUp::Refuse
            },
            Some(InternalEvent::InterfaceEvent(ev)) => if r.protocol().is_started() && ev.interface@
                < r.link().interfaces().len() && r.link().interfaces()[ev.interface@ as int].is_up {
                WakeUp::InterfaceDown(ev.interface)
            } else {
                WakeUp::Refuse
            },
        }
    }
}

pub struct Router {
    sim_helper: SimBase,
    layer2: Layer2,
    layer3: Layer3,
}

impl Router {
    /// The protocol was started and told of every interface, and what it
    /// asked for was carried out.
    pub open spec fn start_served(
        pre: &Router,
        post: &Router,
        before: SchedulerView<InternalEvent, Frame>,
        after: SchedulerView<InternalEvent, Frame>,
    ) -> bool {
        exists|out: Seq<Request>|
            #[trigger] SimpleDiv::brought_up(
                interface_ids(pre.link().interfaces()),
                &pre.protocol(),
                &post.protocol(),
                out,
            ) && carried(before, after, post.link().interfaces(), pre.helper().id(), out)
    }

    /// The protocol was handed the timer, and what it asked for was
    /// carried out.
    pub open spec fn timer_served(
        pre: &Router,
        post: &Router,
        timer: SimpleDVTimer,
        before: SchedulerView<InternalEvent, Frame>,
        after: SchedulerView<InternalEvent, Frame>,
    ) -> bool {
        exists|out: Seq<Request>|
            #[trigger] SimpleDiv::timer_fired(
                &pre.protocol(),
                &post.protocol(),
                timer,
                SimTime::of_nanos(before.now),
                out,
            ) && carried(before, after, post.link().interfaces(), pre.helper().id(), out)
    }

    /// The protocol was told that the interface went down, and what it
    /// asked for was carried out.
    pub open spec fn down_served(
        pre: &Router,
        post: &Router,
        interface: InterfaceId,
        before: SchedulerView<InternalEvent, Frame>,
        after: SchedulerView<InternalEvent, Frame>,
    ) -> bool {
        exists|out: Seq<Request>|
            #[trigger] SimpleDiv::went_down(&pre.protocol(), &post.protocol(), interface, out)
                && carried(before, after, post.link().interfaces(), pre.helper().id(), out)
    }

    /// The protocol was handed the packet, and what it asked for was
    /// carried out.
    pub open spec fn packet_served(
        pre: &Router,
        post: &Router,
        interface: InterfaceId,
        packet: SimpleDVPacket,
        before: SchedulerView<InternalEvent, Frame>,
        after: SchedulerView<InternalEvent, Frame>,
    ) -> bool {
        exists|out: Seq<Request>|
            #[trigger] SimpleDiv::packet_received(
                &pre.protocol(),
                &post.protocol(),
                interface,
                packet,
                SimTime::of_nanos(before.now),
                out,
            ) && carried(before, after, post.link().interfaces(), pre.helper().id(), out)
    }

    /// `r` is a router that has just been made for the component `id`, to
    /// run the protocol under `router_id` with the configuration `config`:
    /// it has no interfaces and no routes, and the protocol is not
    /// started.
    pub open spec fn fresh(
        r: &Router,
        id: ComponentId,
        router_id: RouterId,
        config: Seq<crate::simpledv::config::InterfaceConfig>,
    ) -> bool {
        &&& r.wf()
        &&& r.helper().id() == id
        &&& r.link().interfaces().len() == 0
        &&& r.protocol().router() == router_id
        &&& r.protocol().cfg()@ == config
        &&& !r.protocol().is_started()
        &&& r.protocol().neighbors().len() == 0
        &&& r.protocol().routes().entries.len() == 0
    }

    /// What a channel does to a router: it becomes the router's next
    /// interface, which is down. Once the protocol is started the router
    /// takes no more interfaces, and the channel is ignored.
    pub open spec fn attached_to(pre: &Router, post: &Router, channel_id: ChannelId) -> bool {
        if pre.protocol().is_started() {
            *post == *pre
        } else {
            let interface_id = InterfaceId::of(pre.link().interfaces().len());
            &&& post.helper() == pre.helper()
            &&& post.link().interfaces() == pre.link().interfaces().push(
                P2PLayer2Instance { interface_id, channel_id, is_up: false },
            )
            &&& SimpleDiv::interface_added(&pre.protocol(), &post.protocol(), interface_id)
        }
    }

    /// What the end of a run does to a router: nothing.
    pub open spec fn terminated(pre: &Router, post: &Router) -> bool {
        &&& post.helper() == pre.helper()
        &&& post.link() == pre.link()
        &&& post.protocol() == pre.protocol()
    }

    /// What the start of a run does to a router: it asks to be started at
    /// the current time.
    pub open spec fn initialized(
        pre: &Router,
        post: &Router,
        before: SchedulerView<InternalEvent, Frame>,
        after: SchedulerView<InternalEvent, Frame>,
    ) -> bool {
        &&& *post == *pre
        &&& after == before.schedule(
            0,
            EventType::ProcessEvent(
                ComponentEvent {
                    sender: pre.helper().id(),
                    receiver: pre.helper().id(),
                    event: Some(InternalEvent::RouterStartEvent),
                },
            ),
        )
    }

    /// What a wake-up does to a router.
    ///
    /// A start brings the layers and then the interfaces up; a timer goes
    /// to the protocol; an interface event takes the interface down and
    /// tells the protocol. What the protocol asks for is carried out: the
    /// router schedules Hellos and Updates on its channels and timers for
    /// itself. A wake-up that is refused aborts the run.
    pub open spec fn woken(
        pre: &Router,
        post: &Router,
        sender: ComponentId,
        event: Option<InternalEvent>,
        before: SchedulerView<InternalEvent, Frame>,
        after: SchedulerView<InternalEvent, Frame>,
    ) -> bool {
        &&& post.helper() == pre.helper()
        &&& match wake_up(pre, sender, event) {
            WakeUp::Refuse => *post == *pre && after == before.fail(),
            WakeUp::Start => {
                &&& Router::start_served(pre, post, before, after)
                &&& post.protocol().is_started()
                &&& post.protocol().neighbors().len() == pre.protocol().neighbors().len()
                &&& post.link().interfaces().len() == pre.link().interfaces().len()
                &&& forall|i: int|
                    0 <= i < pre.link().interfaces().len() ==> (#[trigger] post.link().interfaces()[i])
                        == (P2PLayer2Instance { is_up: true, ..pre.link().interfaces()[i] })
            },
            WakeUp::Timer(timer) => {
                &&& post.link() == pre.link()
                &&& Router::timer_served(pre, post, timer, before, after)
            },
            WakeUp::InterfaceDown(interface) => {
                &&& post.link().interfaces() == pre.link().interfaces().update(
                    interface@ as int,
                    P2PLayer2Instance { is_up: false, ..pre.link().interfaces()[interface@ as int] },
                )
                &&& Router::down_served(pre, post, interface, before, after)
            },
        }
    }

    /// What a frame does to a router.
    ///
    /// A frame that is rejected aborts the run; one that is dropped leaves
    /// no trace; a packet that is delivered goes to the protocol, and what
    /// the protocol asks for is carried out.
    pub open spec fn received(
        pre: &Router,
        post: &Router,
        incoming_channel: ChannelId,
        msg: Frame,
        before: SchedulerView<InternalEvent, Frame>,
        after: SchedulerView<InternalEvent, Frame>,
    ) -> bool {
        &&& post.helper() == pre.helper()
        &&& post.link() == pre.link()
        &&& match verdict(pre.link().interfaces(), incoming_channel, msg.stack@, msg.next_header) {
            Verdict::Reject => post.protocol() == pre.protocol() && after == before.fail(),
            Verdict::Drop => post.protocol() == pre.protocol() && after == before,
            Verdict::Deliver(interface, packet) => Router::packet_served(
                pre,
                post,
                interface,
                packet,
                before,
                after,
            ),
        }
    }

    /// The link layer.
    pub closed spec fn link(&self) -> Layer2 {
        self.layer2
    }

    /// The routing protocol.
    pub closed spec fn protocol(&self) -> SimpleDiv {
        self.layer3.control_plane
    }

    pub closed spec fn helper(&self) -> SimBase {
        self.sim_helper
    }

    /// The router's invariant: both layers are sound and know the same
    /// interfaces, and no interface is up before the protocol is started.
    pub open spec fn wf(&self) -> bool {
        &&& self.link().wf()
        &&& self.protocol().wf()
        &&& self.link().interfaces().len() == self.protocol().neighbors().len()
        &&& forall|i: int|
            0 <= i < self.link().interfaces().len() && (#[trigger] self.link().interfaces()[i]).is_up
                ==> self.protocol().is_started()
    }

    /// A router that runs the protocol under `router_id` with the
    /// configuration `config`.
    pub fn new(id: ComponentId, router_id: RouterId, config: Config) -> (r: Self)
        ensures
            Router::fresh(&r, id, router_id, config@),
            r.protocol().cfg() == config,
    {
        let mut control_plane = SimpleDiv::new(router_id);
        control_plane.set_config(config);
        Router {
            sim_helper: SimBase::new(id),
            layer2: SimpleLayer2::new(),
            layer3: DummyLayer3 { control_plane },
        }
    }

    /// The routing protocol's state.
    pub fn control_plane(&self) -> (r: &SimpleDiv)
        ensures
            *r == self.protocol(),
    {
        &self.layer3.control_plane
    }

    /// The link layer's state.
    pub fn layer2(&self) -> (r: &Layer2)
        ensures
            *r == self.link(),
    {
        &self.layer2
    }

    /// Carry out what the protocol asked for, in order: a packet is
    /// framed and handed to the link layer, a timer is asked of the event
    /// queue, and a stop aborts the run. So does a packet for an interface
    /// that does not exist or is down.
    fn carry_out(&self, requests: Vec<Request>, sched: &mut Scheduler<InternalEvent, Frame>)
        requires
            self.wf(),
        ensures
            old(sched)@.extended_by(
                final(sched)@,
                component_may_schedule(self.helper().id(), self.link().channels()),
            ),
            carried(
                old(sched)@,
                final(sched)@,
                self.link().interfaces(),
                self.helper().id(),
                requests@,
            ),
    {
        let ghost allowed = component_may_schedule::<InternalEvent, Frame>(
            self.helper().id(),
            self.link().channels(),
        );
        proof {
            use_type_invariant(&*sched);
            sched.lemma_inv_wf();
            lemma_extended_refl(sched@, allowed);
        }
        let ghost ifs = self.link().interfaces();
        let ghost id = self.helper().id();
        let ghost mut queues: Seq<SchedulerView<InternalEvent, Frame>> = seq![sched@];
        let n = requests.len();
        let mut i: usize = 0;
        while i < n
            invariant
                i <= n,
                n == requests@.len(),
                self.wf(),
                ifs == self.link().interfaces(),
                id == self.helper().id(),
                queues.len() == i + 1,
                queues[0] == old(sched)@,
                queues[i as int] == sched@,
                forall|k: int|
                    0 <= k < i ==> carried_one(
                        #[trigger] queues[k],
                        queues[k + 1],
                        ifs,
                        id,
                        requests@[k],
                    ),
                allowed == component_may_schedule::<InternalEvent, Frame>(
                    self.helper().id(),
                    self.link().channels(),
                ),
                old(sched)@.extended_by(sched@, allowed),
            decreases n - i,
        {
            let ghost before = sched@;
            proof {
                use_type_invariant(&*sched);
                sched.lemma_inv_wf();
            }
            match &requests[i] {
                ControlRequest::Send { interface, packet } => {
                    if interface.as_idx() < self.layer2.interface_count()
                        && self.layer2.is_interface_up(*interface) {
                        let mut frame = Packet::create_and_wrap(Header::Routing(*packet));
                        frame.add_packet(
                            Header::Link(P2PPacket { next_header: SimpleL2NextHeader::Layer3 }),
                        );
                        proof {
                            let channel = self.link().interfaces()[interface@ as int].channel_id;
                            assert(self.link().channels().contains(channel));
                            lemma_extended_step(
                                old(sched)@,
                                before,
                                0,
                                EventType::MsgSendEvent(
                                    MessageSendEvent {
                                        sender: self.helper().id(),
                                        channel,
                                        message: frame,
                                    },
                                ),
                                allowed,
                            );
                        }
                        let ghost sent = frame;
                        self.layer3.send_packet(
                            *interface,
                            frame,
                            &self.layer2,
                            &self.sim_helper,
                            sched,
                        );
                        proof {
                            assert(sent.stack@ =~= seq![
                                Header::Routing(*packet),
                                Header::Link(P2PPacket { next_header: SimpleL2NextHeader::Layer3 }),
                            ]);
                            assert(frames(sent, *packet));
                        }
                    } else {
                        proof {
                            lemma_extended_fail(old(sched)@, before, allowed);
                        }
                        self.sim_helper.stop_simulation(sched);
                    }
                },
                ControlRequest::Timer { delay, timer } => {
                    proof {
                        lemma_extended_step(
                            old(sched)@,
                            before,
                            delay@,
                            EventType::ProcessEvent(
                                ComponentEvent {
                                    sender: self.helper().id(),
                                    receiver: self.helper().id(),
                                    event: Some(InternalEvent::L3TimerEvent(*timer)),
                                },
                            ),
                            allowed,
                        );
                    }
                    self.sim_helper.timer(*delay, InternalEvent::L3TimerEvent(*timer), sched);
                },
                ControlRequest::Stop => {
                    proof {
                        lemma_extended_fail(old(sched)@, before, allowed);
                    }
                    self.sim_helper.stop_simulation(sched);
                },
            }
            proof {
                assert(carried_one(before, sched@, ifs, id, requests@[i as int]));
                let longer = queues.push(sched@);
                assert forall|k: int| 0 <= k < i + 1 implies carried_one(
                    #[trigger] longer[k],
                    longer[k + 1],
                    ifs,
                    id,
                    requests@[k],
                ) by {
                    if k < i {
                        assert(longer[k] == queues[k] && longer[k + 1] == queues[k + 1]);
                    }
                }
                queues = longer;
            }
            i += 1;
        }
        proof {
            assert(carried_trace(queues, ifs, id, requests@));
        }
    }

    /// Abort the run.
    fn give_up(&self, sched: &mut Scheduler<InternalEvent, Frame>)
        ensures
            final(sched)@ == old(sched)@.fail(),
            old(sched)@.extended_by(
                final(sched)@,
                component_may_schedule(self.helper().id(), self.link().channels()),
            ),
    {
        proof {
            use_type_invariant(&*sched);
            sched.lemma_inv_wf();
            lemma_extended_refl(
                sched@,
                component_may_schedule(self.helper().id(), self.link().channels()),
            );
        }
        self.sim_helper.stop_simulation(sched);
    }

    /// Do nothing to the event queue.
    proof fn lemma_idle(&self, sched: SchedulerView<InternalEvent, Frame>)
        requires
            sched.wf(),
        ensures
            sched.extended_by(
                sched,
                component_may_schedule(self.helper().id(), self.link().channels()),
            ),
    {
        lemma_extended_refl(
            sched,
            component_may_schedule(self.helper().id(), self.link().channels()),
        );
    }
}

impl Component<InternalEvent, Frame> for Router {
    open spec fn inv(&self) -> bool {
        self.wf()
    }

    open spec fn id(&self) -> ComponentId {
        self.helper().id()
    }

    /// The channels behind the router's interfaces.
    open spec fn attached(&self) -> Set<ChannelId> {
        self.link().channels()
    }

    open spec fn channel_effect(pre: &Self, post: &Self, channel_id: ChannelId, label: ChannelLabel) -> bool {
        Router::attached_to(pre, post, channel_id)
    }

    open spec fn terminate_effect(pre: &Self, post: &Self) -> bool {
        Router::terminated(pre, post)
    }

    open spec fn init_effect(
        pre: &Self,
        post: &Self,
        before: SchedulerView<InternalEvent, Frame>,
        after: SchedulerView<InternalEvent, Frame>,
    ) -> bool {
        Router::initialized(pre, post, before, after)
    }

    open spec fn event_effect(
        pre: &Self,
        post: &Self,
        sender: ComponentId,
        event: Option<InternalEvent>,
        before: SchedulerView<InternalEvent, Frame>,
        after: SchedulerView<InternalEvent, Frame>,
    ) -> bool {
        Router::woken(pre, post, sender, event, before, after)
    }

    open spec fn message_effect(
        pre: &Self,
        post: &Self,
        incoming_channel: ChannelId,
        msg: Frame,
        before: SchedulerView<InternalEvent, Frame>,
        after: SchedulerView<InternalEvent, Frame>,
    ) -> bool {
        Router::received(pre, post, incoming_channel, msg, before, after)
    }

    fn sim_id(&self) -> (r: ComponentId) {
        self.sim_helper.sim_id()
    }

    /// The channel becomes the router's next interface. Once the protocol
    /// is started the router takes no more interfaces, and the channel is
    /// ignored.
    fn add_channel(&mut self, channel_id: ChannelId, _label: ChannelLabel) {
        if self.layer3.control_plane.has_started() {
            return ;
        }
        let if_id = self.layer2.create_p2p_interface(channel_id);
        let number = if_id.as_idx();
        self.layer3.add_interface(if_id);
        proof {
            InterfaceId::lemma_of(number as nat);
            InterfaceId::lemma_view_injective(
                if_id,
                InterfaceId::of(old(self).link().interfaces().len()),
            );
            let before = old(self).link().interfaces();
            let after = self.link().interfaces();
            assert forall|c: ChannelId| self.link().channels().contains(c) implies old(self).link().channels().insert(channel_id).contains(c) by {
                let i = choose|i: int| 0 <= i < after.len() && (#[trigger] after[i]).channel_id == c;
                if i < before.len() {
                    assert(before[i].channel_id == c);
                }
            }
            assert forall|i: int| 0 <= i < after.len() && (#[trigger] after[i]).is_up implies self.protocol().is_started() by {
                if i < before.len() {
                    assert(after[i] == before[i]);
                }
            }
        }
    }

    /// Ask to be started at the current time.
    fn init(&mut self, sched: &mut Scheduler<InternalEvent, Frame>)
    {
        proof {
            use_type_invariant(&*sched);
            sched.lemma_inv_wf();
            crate::scheduler::lemma_schedule_extends(
                sched@,
                0,
                EventType::ProcessEvent(
                    ComponentEvent {
                        sender: self.helper().id(),
                        receiver: self.helper().id(),
                        event: Some(InternalEvent::RouterStartEvent),
                    },
                ),
                component_may_schedule(self.helper().id(), self.link().channels()),
            );
        }
        let id = self.sim_helper.sim_id();
        sched.sched_self_event_with_data(no_delta(), id, InternalEvent::new_router_start());
    }

    /// A start brings the layers and then the interfaces up; a timer goes
    /// to the protocol; an interface event takes the interface down and
    /// tells the protocol. What the protocol asks for is carried out.
    ///
    /// The run is aborted by a wake-up that comes neither from the router
    /// itself nor from outside the system or carries nothing, by a second
    /// start, by a timer or an interface event before the start, and by an
    /// interface event for an interface that does not exist or is down.
    fn process_event(
        &mut self,
        sender: ComponentId,
        event: Option<InternalEvent>,
        sched: &mut Scheduler<InternalEvent, Frame>,
    ) {
        let now = *sched.get_curr_time();
        let clock = now.as_nanos();
        proof {
            SimTime::lemma_of_nanos(clock as nat);
            SimTime::lemma_view_injective(now, SimTime::of_nanos(clock as nat));
            if sender.idx() == self.helper().id().idx() {
                ComponentId::lemma_idx_injective(sender, self.helper().id());
            }
        }
        let own = sender.as_idx() == self.sim_helper.sim_id().as_idx();
        let outside = sender.as_idx() == dummy_component().as_idx();
        if !(own || outside) {
            self.give_up(sched);
            return ;
        }
        match event {
            None => {
                self.give_up(sched);
            },
            Some(InternalEvent::RouterStartEvent) => {
                if self.layer3.control_plane.has_started() {
                    self.give_up(sched);
                    return ;
                }
                self.layer2.start();
                self.layer3.start();
                let ghost started = self.layer3;
                let requests = self.layer2.bring_up_interfaces(&mut self.layer3);
                proof {
                    let ifs = old(self).link().interfaces();
                    let ids = interface_ids(ifs);
                    assert(told_of_all(ifs, &started, &self.layer3, requests@));
                    let (layers, outs) = choose|
                        layers: Seq<Layer3>,
                        outs: Seq<Seq<Request>>,
                    |
                        #[trigger] told_trace(ifs, layers, outs) && layers[0] == started
                            && layers[ifs.len() as int] == self.layer3 && outs.flatten()
                            == requests@;
                    let states = Seq::new(layers.len(), |k: int| layers[k].control_plane);
                    assert forall|k: int| 0 <= k < ids.len() implies SimpleDiv::came_up(
                        #[trigger] &states[k],
                        &states[k + 1],
                        ids[k],
                        outs[k],
                    ) by {
                        assert(Layer3::told(
                            &layers[k],
                            &layers[k + 1],
                            ifs[k].interface_id,
                            outs[k],
                        ));
                    }
                    assert(SimpleDiv::up_trace(ids, states, outs));
                    assert(SimpleDiv::started_from(&old(self).protocol(), &states[0]));
                    assert(SimpleDiv::brought_up(
                        ids,
                        &old(self).protocol(),
                        &self.protocol(),
                        requests@,
                    ));
                }
                proof {
                    assert(self.link().channels() =~= old(self).link().channels()) by {
                        let before = old(self).link().interfaces();
                        let after = self.link().interfaces();
                        assert forall|c: ChannelId|
                            self.link().channels().contains(c) == old(self).link().channels().contains(
                                c,
                            ) by {
                            if self.link().channels().contains(c) {
                                let i = choose|i: int|
                                    0 <= i < after.len() && (#[trigger] after[i]).channel_id == c;
                                assert(before[i].channel_id == c);
                            }
                            if old(self).link().channels().contains(c) {
                                let i = choose|i: int|
                                    0 <= i < before.len() && (#[trigger] before[i]).channel_id == c;
                                assert(after[i].channel_id == c);
                            }
                        }
                    }
                }
                let ghost asked = requests@;
                self.carry_out(requests, sched);
                proof {
                    assert(SimpleDiv::brought_up(
                        interface_ids(old(self).link().interfaces()),
                        &old(self).protocol(),
                        &self.protocol(),
                        asked,
                    ) && carried(
                        old(sched)@,
                        sched@,
                        self.link().interfaces(),
                        old(self).helper().id(),
                        asked,
                    ));
                    assert(Router::start_served(old(self), &*self, old(sched)@, sched@));
                }
            },
            Some(InternalEvent::L3TimerEvent(l3_timer)) => {
                if !self.layer3.control_plane.has_started() {
                    self.give_up(sched);
                    return ;
                }
                let requests = self.layer3.on_timeout(l3_timer, now);
                let ghost asked = requests@;
                self.carry_out(requests, sched);
                proof {
                    assert(SimpleDiv::timer_fired(
                        &old(self).protocol(),
                        &self.protocol(),
                        l3_timer,
                        SimTime::of_nanos(old(sched)@.now),
                        asked,
                    ) && carried(
                        old(sched)@,
                        sched@,
                        self.link().interfaces(),
                        old(self).helper().id(),
                        asked,
                    ));
                    assert(Router::timer_served(old(self), &*self, l3_timer, old(sched)@, sched@));
                }
            },
            Some(InternalEvent::InterfaceEvent(event)) => {
                if !self.layer3.control_plane.has_started() || event.interface.as_idx()
                    >= self.layer2.interface_count() || !self.layer2.is_interface_up(
                    event.interface,
                ) {
                    self.give_up(sched);
                    return ;
                }
                self.layer2.bring_down_interface(event.interface);
                proof {
                    let before = old(self).link().interfaces();
                    let after = self.link().interfaces();
                    assert forall|i: int| 0 <= i < after.len() implies (#[trigger] after[i]).interface_id
                        == before[i].interface_id && after[i].channel_id == before[i].channel_id by {
                        if i != event.interface@ {
                            assert(after[i] == before[i]);
                        }
                    }
                    assert forall|c: ChannelId|
                        self.link().channels().contains(c) == old(self).link().channels().contains(
                            c,
                        ) by {
                        if self.link().channels().contains(c) {
                            let i = choose|i: int|
                                0 <= i < after.len() && (#[trigger] after[i]).channel_id == c;
                            assert(before[i].channel_id == c);
                        }
                        if old(self).link().channels().contains(c) {
                            let i = choose|i: int|
                                0 <= i < before.len() && (#[trigger] before[i]).channel_id == c;
                            assert(after[i].channel_id == c);
                        }
                    }
                    assert(self.link().channels() =~= old(self).link().channels());
                }
                let requests = self.layer3.on_interface_down(event.interface);
                let ghost asked = requests@;
                self.carry_out(requests, sched);
                proof {
                    assert(SimpleDiv::went_down(
                        &old(self).protocol(),
                        &self.protocol(),
                        event.interface,
                        asked,
                    ) && carried(
                        old(sched)@,
                        sched@,
                        self.link().interfaces(),
                        old(self).helper().id(),
                        asked,
                    ));
                    assert(Router::down_served(
                        old(self),
                        &*self,
                        event.interface,
                        old(sched)@,
                        sched@,
                    ));
                }
            },
        }
    }

    /// A frame from a channel that is none of the router's aborts the run,
    /// and so does one that does not start with a frame header or holds no
    /// packet of the protocol. On an interface that is down the frame is
    /// dropped. Otherwise the packet goes to the protocol, and what the
    /// protocol asks for is carried out.
    fn receive_msg(
        &mut self,
        incoming_channel: ChannelId,
        msg: Frame,
        sched: &mut Scheduler<InternalEvent, Frame>,
    ) {
        let now = *sched.get_curr_time();
        let clock = now.as_nanos();
        let mut packet = msg;
        proof {
            SimTime::lemma_of_nanos(clock as nat);
            SimTime::lemma_view_injective(now, SimTime::of_nanos(clock as nat));
        }
        let if_id = match self.layer2.interface_of(incoming_channel) {
            Some(i) => i,
            None => {
                self.give_up(sched);
                return ;
            },
        };
        if packet.stack.len() == 0 || packet.first().as_frame().is_none() || !packet.next_header.is_none() {
            self.give_up(sched);
            return ;
        }
        // 1. the link layer
        let next_layer = self.layer2.receive_packet(if_id, &mut *packet);
        if next_layer.is_none() {
            // the interface is down: the frame is dropped
            proof {
                use_type_invariant(&*sched);
                sched.lemma_inv_wf();
                self.lemma_idle(sched@);
            }
            return ;
        }
        // 2. the network layer: there is none above it
        let dv_packet = match packet.unwrap_next() {
            Some(Header::Routing(dv_packet)) => *dv_packet,
            _ => {
                self.give_up(sched);
                return ;
            },
        };
        proof {
            assert(self.link().interfaces()[if_id@ as int].is_up);
            InterfaceId::lemma_view_injective(
                self.link().interfaces()[if_id@ as int].interface_id,
                if_id,
            );
        }
        let requests = self.layer3.receive_packet(if_id, &dv_packet, now);
        proof {
            let ifs = old(self).link().interfaces();
            assert(first_on_channel(ifs, incoming_channel) == Some(if_id@ as int));
            assert(packet.stack@ == msg.stack@);
            assert(msg.stack@.len() >= 2);
            assert(msg.stack@[msg.stack@.len() - 2] == Header::Routing(dv_packet));
            assert(verdict(ifs, incoming_channel, msg.stack@, msg.next_header) == Verdict::Deliver(
                if_id,
                dv_packet,
            ));
            assert(now == SimTime::of_nanos(old(sched)@.now));
            assert(SimpleDiv::packet_received(
                &old(self).protocol(),
                &self.protocol(),
                if_id,
                dv_packet,
                SimTime::of_nanos(old(sched)@.now),
                requests@,
            ));
        }
        let ghost asked = requests@;
        self.carry_out(requests, sched);
        proof {
            assert(SimpleDiv::packet_received(
                &old(self).protocol(),
                &self.protocol(),
                if_id,
                dv_packet,
                SimTime::of_nanos(old(sched)@.now),
                asked,
            ) && carried(
                old(sched)@,
                sched@,
                self.link().interfaces(),
                old(self).helper().id(),
                asked,
            ));
            assert(Router::packet_served(
                old(self),
                &*self,
                if_id,
                dv_packet,
                old(sched)@,
                sched@,
            ));
        }
    }

    fn terminate(&mut self) {
        self.layer2.terminate();
        self.layer3.terminate();
    }
}

/// Makes routers. A router made through `build_component` is numbered by
/// a counter that starts at 1; the first such router has a host on its
/// first interface.
pub struct RouterBuilder {
    counter: usize,
}

impl Default for RouterBuilder {
    fn default() -> (r: Self)
        ensures
            r.made() == 0,
    {
        RouterBuilder { counter: 0 }
    }
}

impl RouterBuilder {
    /// How many routers `build_component` has made.
    pub closed spec fn made(&self) -> nat {
        self.counter as nat
    }

    /// A router that runs the protocol under `router_id` with a copy of
    /// the configuration `config`.
    pub fn build_router(&mut self, id: ComponentId, router_id: RouterId, config: &Config) -> (r:
        Router)
        ensures
            final(self).made() == old(self).made(),
            Router::fresh(&r, id, router_id, config@),
    {
        Router::new(id, router_id, config.clone())
    }
}

impl ComponentBuilder<InternalEvent, Frame> for RouterBuilder {
    type C = Router;

    open spec fn ready(&self) -> bool {
        self.made() < usize::MAX
    }

    /// The router gets the next number. The first router has a host on
    /// its first interface; the others have an empty configuration.
    open spec fn builds(pre: &Self, post: &Self, id: ComponentId, built: &Router) -> bool {
        &&& post.made() == pre.made() + 1
        &&& Router::fresh(
            built,
            id,
            UniqueId(post.made() as usize),
            if pre.made() == 0 {
                seq![
                    crate::simpledv::config::InterfaceConfig {
                        if_id: InterfaceId::of(0),
                        advertise_addr: HostAddr {
                            router_id: UniqueId(1),
                            interface_id: InterfaceId::of(0),
                        },
                    },
                ]
            } else {
                Seq::empty()
            },
        )
    }

    fn build_component(&mut self, id: ComponentId) -> (r: Router) {
        self.counter += 1;
        let mut config = Config::new();
        if self.counter == 1 {
            let if_id = InterfaceId::from(0);
            proof {
                InterfaceId::lemma_of(0);
                InterfaceId::lemma_view_injective(if_id, InterfaceId::of(0));
            }
            config.add_interface(
                if_id,
                HostAddr { router_id: UniqueId(self.counter), interface_id: if_id },
            );
        }
        let ghost made = config@;
        let r = Router::new(id, UniqueId(self.counter), config);
        proof {
            assert(r.link().channels() =~= Set::<ChannelId>::empty());
            if old(self).made() != 0 {
                assert(made =~= Seq::empty());
            } else {
                assert(made =~= seq![
                    crate::simpledv::config::InterfaceConfig {
                        if_id: InterfaceId::of(0),
                        advertise_addr: HostAddr {
                            router_id: UniqueId(1),
                            interface_id: InterfaceId::of(0),
                        },
                    },
                ]);
            }
        }
        r
    }
}

} // verus!
