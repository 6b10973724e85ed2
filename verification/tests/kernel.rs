use d2simrs::channels::delay_channel::{DelayChannel, DelayChannelBuilder};
use d2simrs::component::{ChannelLabel, Component, ComponentBase, ComponentBuilder};
use d2simrs::dummycomponent::{DummyComponent, DummyComponentBuilder};
use d2simrs::keys::{dummy_component, ChannelId, ComponentId};
use d2simrs::lcr::{Message, Process, ProcessBuilder, ProcessState};
use d2simrs::scheduler::{EventType, Scheduler};
use d2simrs::sim::Simulation;
use d2simrs::simtime::{SimTime, SimTimeDelta};
use d2simrs::synch::process::ProcessBase;

type Ring = Simulation<(), Message, Process, DelayChannel>;

fn ring(n: usize, delay_millis: u64) -> Ring {
    let mut sim = Ring::new();
    let mut builder = ProcessBuilder::new(1000);
    for i in 0..n {
        assert_eq!(sim.add_component(&mut builder), ComponentId::new(i));
    }
    let mut channels = DelayChannelBuilder::new();
    channels.delay_millis(delay_millis);
    for i in 0..n {
        let id = sim.add_channel(&mut channels, ComponentId::new(i), ComponentId::new((i + 1) % n));
        assert_eq!(id, ChannelId::new(i));
    }
    sim
}

#[test]
fn identifiers() {
    let c = ChannelId::new(3);
    assert_eq!(c.as_idx(), 3);
    assert!(c.is_initialized());
    assert!(!ChannelId::default().is_initialized());
    assert_eq!(ChannelId::default().as_idx(), usize::MAX);
    assert_eq!(ComponentId::new(8).as_idx(), 8);
    assert_eq!(dummy_component().as_idx(), usize::MAX);
    assert_eq!(ComponentId::new(8), ComponentId::new(8));
    assert_ne!(ChannelId::new(1), ChannelId::new(2));
}

#[test]
fn bases_keep_their_channels_in_order() {
    let mut base = ComponentBase::new(ComponentId::new(2));
    base.add_channel(ChannelId::new(5), ChannelLabel::Left);
    base.add_channel(ChannelId::new(4), ChannelLabel::Right);
    assert_eq!(base.component_id, ComponentId::new(2));
    assert_eq!(base.channels, vec![ChannelId::new(5), ChannelId::new(4)]);
    let mut base = ProcessBase::new(ComponentId::new(3));
    base.add_channel(ChannelId::new(1), ChannelLabel::Left);
    assert_eq!(base.component_id, ComponentId::new(3));
    assert_eq!(base.channels, vec![ChannelId::new(1)]);
    assert!(base.curr_round.is_zero());
}

#[test]
fn channels_are_attached_to_both_ends() {
    let sim = ring(3, 1);
    assert_eq!(sim.component_count(), 3);
    assert_eq!(sim.channel_count(), 3);
    for i in 0..3usize {
        let p = sim.component(ComponentId::new(i));
        assert_eq!(p.component_id, ComponentId::new(i));
        // left endpoint of its own channel, right endpoint of the one before
        assert_eq!(p.left, ChannelId::new(i));
        assert_eq!(p.right, ChannelId::new((i + 2) % 3));
        let ch = sim.channel(ChannelId::new(i));
        assert_eq!(ch.left, ComponentId::new(i));
        assert_eq!(ch.right, ComponentId::new((i + 1) % 3));
    }
    assert_eq!(sim.pending_count(), 0);
    assert!(sim.time().is_zero());
}

#[test]
fn step_dispatches_one_event() {
    let mut sim = ring(3, 5);
    sim.call_init();
    // one wake-up per process
    assert_eq!(sim.pending_count(), 3);
    assert!(sim.step());
    // the wake-up became a message that was sent
    assert_eq!(sim.pending_count(), 3);
    assert!(sim.step());
    assert!(sim.step());
    assert!(sim.time().is_zero());
    // the first message is handed to its channel and arrives 5 ms later
    assert!(sim.step());
    assert_eq!(sim.pending_count(), 3);
    assert!(sim.step());
    assert!(sim.step());
    assert!(sim.time().is_zero());
    assert!(sim.step());
    assert_eq!(sim.time().as_millis(), 5);
}

#[test]
fn run_stops_after_the_given_number_of_steps() {
    let mut sim = ring(4, 1);
    sim.call_init();
    assert!(sim.run(5).is_ok());
    assert!(sim.pending_count() > 0);
    assert!(sim.run(0).is_ok());
    assert!(sim.run(100_000).is_ok());
    assert_eq!(sim.pending_count(), 0);
    assert!(!sim.step());
    let leaders = (0..4)
        .filter(|i| sim.component(ComponentId::new(*i)).state == ProcessState::Leader)
        .count();
    assert_eq!(leaders, 1);
    sim.call_terminate();
}

#[test]
fn deadline_is_looked_at_after_each_event() {
    let mut sim = ring(4, 1000);
    sim.call_init();
    let deadline = SimTime::default() + SimTimeDelta::from_millis(2500);
    assert!(sim.run_until(deadline, 100_000).is_ok());
    // the event that moved the clock beyond the deadline was still dispatched
    assert_eq!(sim.time().as_millis(), 3000);
    assert!(sim.pending_count() > 0);
    // beyond the deadline one more event is dispatched per call
    let before = sim.pending_count();
    assert!(sim.run_until(deadline, 100_000).is_ok());
    assert_eq!(sim.time().as_millis(), 3000);
    assert!(sim.pending_count() <= before + 1);
    assert!(sim.run_until(SimTime::default() + SimTimeDelta::from_secs(3600), 100_000).is_ok());
    assert_eq!(sim.pending_count(), 0);
    assert_eq!(sim.time().as_rounds(), 8);
}

#[test]
fn validate_hands_the_components_over() {
    let sim = ring(5, 1);
    assert!(sim.validate(|components: &Vec<Process>| components.len() == 5));
    assert!(!sim.validate(|components: &Vec<Process>| components.is_empty()));
    assert!(sim.validate(|components: &Vec<Process>| {
        components.iter().all(|p| p.state == ProcessState::Unknown)
    }));
}

#[test]
fn dummy_component_fails_the_run_when_addressed() {
    let mut builder = DummyComponentBuilder::default();
    let mut c: DummyComponent =
        ComponentBuilder::<u8, u8>::build_component(&mut builder, ComponentId::new(4));
    assert_eq!(Component::<u8, u8>::sim_id(&c), ComponentId::new(4));
    Component::<u8, u8>::add_channel(&mut c, ChannelId::new(0), ChannelLabel::Left);
    let mut sched: Scheduler<u8, u8> = Scheduler::new();
    c.init(&mut sched);
    assert_eq!(sched.pending_count(), 0);
    assert!(sched.sim_status().is_ok());
    c.receive_msg(ChannelId::new(0), 1, &mut sched);
    assert!(sched.sim_status().is_err());
    let mut sched: Scheduler<u8, u8> = Scheduler::new();
    c.process_event(ComponentId::new(4), None, &mut sched);
    assert!(sched.sim_status().is_err());
    Component::<u8, u8>::terminate(&mut c);
}

#[test]
fn scheduler_kinds_of_events() {
    let a = ComponentId::new(1);
    let b = ComponentId::new(2);
    let ch = ChannelId::new(0);
    let mut sched: Scheduler<u8, char> = Scheduler::new();
    sched.send_msg_delayed(SimTimeDelta::from_millis(3), a, ch, 'd');
    sched.send_msg(a, ch, 'n');
    sched.sched_receive_msg(SimTimeDelta::from_millis(1), b, ch, 'r');
    sched.sched_self_event(SimTimeDelta::from_millis(2), a);
    sched.sched_component_event(SimTimeDelta::from_millis(2), a, b, Some(7));
    assert_eq!(sched.peek_index(), Some(1));
    match sched.next_event() {
        EventType::MsgSendEvent(ev) => assert_eq!((ev.sender, ev.channel, ev.message), (a, ch, 'n')),
        _ => panic!("wrong kind"),
    }
    assert_eq!(sched.peek_index(), Some(2));
    match sched.next_event() {
        EventType::MsgRcvEvent(ev) => {
            assert_eq!((ev.receiver, ev.channel, ev.message), (b, ch, 'r'))
        }
        _ => panic!("wrong kind"),
    }
    assert_eq!(sched.get_curr_time().as_millis(), 1);
    match sched.next_event() {
        EventType::ProcessEvent(ev) => assert_eq!((ev.sender, ev.receiver, ev.event), (a, a, None)),
        _ => panic!("wrong kind"),
    }
    match sched.next_event() {
        EventType::ProcessEvent(ev) => {
            assert_eq!((ev.sender, ev.receiver, ev.event), (a, b, Some(7)))
        }
        _ => panic!("wrong kind"),
    }
    assert_eq!(sched.get_curr_time().as_millis(), 2);
    assert_eq!(sched.peek_index(), Some(0));
    match sched.next_event() {
        EventType::MsgSendEvent(ev) => assert_eq!(ev.message, 'd'),
        _ => panic!("wrong kind"),
    }
    assert_eq!(sched.get_curr_time().as_millis(), 3);
    assert_eq!(sched.peek_index(), None);
    // a delay is counted from the time of the call
    sched.sched_self_event(SimTimeDelta::from_millis(2), a);
    assert!(matches!(sched.next_event(), EventType::ProcessEvent(_)));
    assert_eq!(sched.get_curr_time().as_millis(), 5);
}
