use d2simrs::basicnet::dummylayer3::DummyLayer3;
use d2simrs::basicnet::nettraits::{BottomLayer, ControlRequest};
use d2simrs::basicnet::packet::Packet;
use d2simrs::basicnet::simbase::SimBase;
use d2simrs::basicnet::simplelayer2::{
    LinkFrame, P2PLayer2Instance, P2PPacket, SimpleL2NextHeader, SimpleLayer2,
};
use d2simrs::basicnet::types::InterfaceId;
use d2simrs::keys::{ChannelId, ComponentId};
use d2simrs::scheduler::{EventType, Scheduler};
use d2simrs::simpledv::packets::SimpleDVPacketType;
use d2simrs::simpledv::router::{Frame, Header, InternalEvent};
use d2simrs::simpledv::timer::SimpleDVTimer;
use d2simrs::simpledv::SimpleDiv;
use d2simrs::simtime::SimTimeDelta;
use d2simrs::util::uid::UniqueId;

fn link_header() -> Header {
    Header::Link(P2PPacket { next_header: SimpleL2NextHeader::Layer3 })
}

#[test]
fn packet_is_read_from_the_top_down() {
    let mut p: Box<Packet<u32>> = Packet::new_box();
    assert!(p.stack.is_empty());
    assert!(!p.has_next());
    assert!(!p.is_first_of_type(|_: &u32| true));
    p.add_packet(10);
    p.add_packet(20);
    p.add_packet(30);
    assert!(p.is_first_of_type(|h: &u32| *h == 30));
    assert!(!p.is_first_of_type(|h: &u32| *h == 10));
    assert_eq!(*p.first(), 30);
    assert_eq!(*p.unwrap_first(), 30);
    assert!(p.has_next());
    assert_eq!(p.unwrap_next(), Some(&20));
    assert!(p.has_next());
    assert_eq!(p.unwrap_next(), Some(&10));
    assert!(!p.has_next());
    assert_eq!(p.unwrap_next(), None);
    // reading starts over at the top
    assert_eq!(*p.unwrap_first(), 30);
    assert_eq!(p.unwrap_next(), Some(&20));
    assert_eq!(p.stack, vec![10, 20, 30]);
}

#[test]
fn packet_with_one_header_has_nothing_below() {
    let mut p = Packet::create_and_wrap('a');
    assert_eq!(p.stack, vec!['a']);
    assert_eq!(*p.unwrap_first(), 'a');
    assert!(!p.has_next());
    assert_eq!(p.unwrap_next(), None);
}

#[test]
fn interface_ids() {
    let i = InterfaceId::from(4);
    assert_eq!(i.as_idx(), 4);
    assert!(i.is(4));
    assert!(!i.is(5));
    assert_eq!(i, InterfaceId::from(4));
    let mut inst =
        P2PLayer2Instance { interface_id: i, channel_id: ChannelId::new(1), is_up: false };
    inst.set_up();
    assert!(inst.is_up);
    assert_eq!(inst.interface_id, i);
    assert_eq!(inst.channel_id, ChannelId::new(1));
}

#[test]
fn sim_base_schedules_in_the_name_of_its_component() {
    let sim = SimBase::new(ComponentId::new(6));
    assert_eq!(sim.sim_id(), ComponentId::new(6));
    let mut sched: Scheduler<u8, char> = Scheduler::new();
    sim.timer(SimTimeDelta::from_secs(2), 5, &mut sched);
    sim.send_msg_on_channel(ChannelId::new(3), 'x', &mut sched);
    match sched.next_event() {
        EventType::MsgSendEvent(ev) => {
            assert_eq!(ev.sender, ComponentId::new(6));
            assert_eq!(ev.channel, ChannelId::new(3));
            assert_eq!(ev.message, 'x');
        }
        _ => panic!("no message"),
    }
    assert!(sched.get_curr_time().is_zero());
    match sched.next_event() {
        EventType::ProcessEvent(ev) => {
            assert_eq!(ev.sender, ComponentId::new(6));
            assert_eq!(ev.receiver, ComponentId::new(6));
            assert_eq!(ev.event, Some(5));
        }
        _ => panic!("no timer"),
    }
    assert_eq!(sched.get_curr_time().as_rounds(), 2);
    assert!(sched.sim_status().is_ok());
    sim.stop_simulation(&mut sched);
    assert!(sched.sim_status().is_err());
    assert!(sched.has_failed());
}

#[test]
fn link_layer_frames_and_interfaces() {
    let mut l2: SimpleLayer2<SimpleL2NextHeader> = SimpleLayer2::new();
    l2.start();
    assert_eq!(l2.interface_count(), 0);
    assert_eq!(l2.create_p2p_interface(ChannelId::new(7)), InterfaceId::from(0));
    assert_eq!(l2.create_p2p_interface(ChannelId::new(9)), InterfaceId::from(1));
    assert_eq!(l2.interface_count(), 2);
    assert_eq!(l2.interface_of(ChannelId::new(9)), Some(InterfaceId::from(1)));
    assert_eq!(l2.interface_of(ChannelId::new(8)), None);
    assert!(!l2.is_interface_up(InterfaceId::from(0)));

    // a frame on an interface that is down is ignored
    let mut frame: Frame = Packet::create_and_wrap(link_header());
    frame.add_packet(link_header());
    assert_eq!(l2.receive_packet(InterfaceId::from(0), &mut frame), None);
    assert!(!frame.has_next());

    let mut l3: DummyLayer3<SimpleDiv> = DummyLayer3::new(UniqueId(1));
    l3.add_interface(InterfaceId::from(0));
    l3.add_interface(InterfaceId::from(1));
    l3.start();
    let asked = l2.bring_up_interfaces(&mut l3);
    assert!(l2.is_interface_up(InterfaceId::from(0)));
    assert!(l2.is_interface_up(InterfaceId::from(1)));
    // a Hello and a timer for each of the two interfaces, in order
    assert_eq!(asked.len(), 4);
    let mut hellos = Vec::new();
    let mut timers = Vec::new();
    for r in &asked {
        match r {
            ControlRequest::Send { interface, packet } => {
                assert_eq!(packet.content, SimpleDVPacketType::Hello);
                hellos.push(interface.as_idx());
            }
            ControlRequest::Timer { timer, .. } => timers.push(*timer),
            ControlRequest::Stop => panic!("nothing went wrong"),
        }
    }
    assert_eq!(hellos, vec![0, 1]);
    assert_eq!(
        timers,
        vec![
            SimpleDVTimer::new_hello_timer(InterfaceId::from(0)),
            SimpleDVTimer::new_hello_timer(InterfaceId::from(1))
        ]
    );

    assert_eq!(
        l2.receive_packet(InterfaceId::from(0), &mut frame),
        Some(SimpleL2NextHeader::Layer3)
    );
    assert_eq!(frame.unwrap_next(), Some(&link_header()));

    // sending goes to the channel behind the interface
    let sim = SimBase::new(ComponentId::new(2));
    let mut sched: Scheduler<InternalEvent, Frame> = Scheduler::new();
    let out: Frame = Packet::create_and_wrap(link_header());
    l2.send_packet(InterfaceId::from(1), out, &sim, &mut sched);
    let out: Frame = Packet::create_and_wrap(link_header());
    l3.send_packet(InterfaceId::from(0), out, &l2, &sim, &mut sched);
    match sched.next_event() {
        EventType::MsgSendEvent(ev) => {
            assert_eq!(ev.channel, ChannelId::new(9));
            assert_eq!(ev.sender, ComponentId::new(2));
            assert!(ev.message.first().as_frame().is_some());
        }
        _ => panic!("nothing was sent"),
    }
    match sched.next_event() {
        EventType::MsgSendEvent(ev) => assert_eq!(ev.channel, ChannelId::new(7)),
        _ => panic!("nothing was sent"),
    }

    l2.bring_down_interface(InterfaceId::from(1));
    assert!(!l2.is_interface_up(InterfaceId::from(1)));
    assert!(l2.is_interface_up(InterfaceId::from(0)));
    assert!(l3.on_interface_down(InterfaceId::from(1)).is_empty());
    l2.terminate();
    l3.terminate();
}
