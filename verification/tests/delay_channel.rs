use d2simrs::channel::{ChannelBuilder, ChannelTrait};
use d2simrs::channels::delay_channel::{DelayChannel, DelayChannelBuilder};
use d2simrs::keys::{ChannelId, ComponentId};
use d2simrs::scheduler::{EventType, Scheduler};
use d2simrs::simtime::SimTimeDelta;
use d2simrs::synch::channel::{BasicChannel, BasicChannelBuilder};
use std::time::Duration;

fn channel(builder: &DelayChannelBuilder) -> DelayChannel {
    builder.build_channel(ChannelId::new(3), ComponentId::new(10), ComponentId::new(20))
}

#[test]
fn message_arrives_after_the_delay_at_the_other_end() {
    let mut builder = DelayChannelBuilder::new();
    builder.delay_millis(7);
    let mut ch = channel(&builder);
    let mut sched: Scheduler<(), &str> = Scheduler::new();
    // move the clock to T = 2 s
    sched.sched_self_event(SimTimeDelta::from_secs(2), ComponentId::new(10));
    assert!(matches!(sched.next_event(), EventType::ProcessEvent(_)));
    assert_eq!(sched.get_curr_time().as_millis(), 2000);

    ch.accept_message_from(ComponentId::new(10), "to the right", &mut sched);
    ch.accept_message_from(ComponentId::new(20), "to the left", &mut sched);
    assert_eq!(sched.get_curr_time().as_millis(), 2000);
    assert_eq!(sched.pending_count(), 2);

    match sched.next_event() {
        EventType::MsgRcvEvent(ev) => {
            assert_eq!(ev.receiver, ComponentId::new(20));
            assert_eq!(ev.channel, ChannelId::new(3));
            assert_eq!(ev.message, "to the right");
        }
        _ => panic!("no arrival"),
    }
    // T + D
    assert_eq!(sched.get_curr_time().as_nanos(), 2_007_000_000);
    match sched.next_event() {
        EventType::MsgRcvEvent(ev) => {
            assert_eq!(ev.receiver, ComponentId::new(10));
            assert_eq!(ev.message, "to the left");
        }
        _ => panic!("no arrival"),
    }
    assert_eq!(sched.get_curr_time().as_nanos(), 2_007_000_000);
    assert!(matches!(sched.next_event(), EventType::EndSimulation));
}

#[test]
fn arrival_is_never_before_an_event_due_earlier() {
    let mut builder = DelayChannelBuilder::new();
    builder.delay_sec(1);
    let mut ch = channel(&builder);
    let mut sched: Scheduler<u8, u8> = Scheduler::new();
    ch.accept_message_from(ComponentId::new(10), 1, &mut sched);
    sched.sched_self_event_with_data(SimTimeDelta::from_millis(999), ComponentId::new(10), 2);
    sched.sched_self_event_with_data(SimTimeDelta::from_millis(1000), ComponentId::new(10), 3);
    assert!(matches!(sched.next_event(), EventType::ProcessEvent(_)));
    assert_eq!(sched.get_curr_time().as_millis(), 999);
    // due at the same time as the wake-up, but scheduled first
    assert!(matches!(sched.next_event(), EventType::MsgRcvEvent(_)));
    assert_eq!(sched.get_curr_time().as_millis(), 1000);
    assert!(matches!(sched.next_event(), EventType::ProcessEvent(_)));
}

#[test]
fn builder_settings() {
    let ch = channel(&DelayChannelBuilder::new());
    assert_eq!(ch.delay.as_nanos(), 0);
    let ch = channel(&DelayChannelBuilder::default());
    assert_eq!(ch.delay.as_nanos(), 0);
    assert_eq!(ch.id, ChannelId::new(3));
    assert_eq!(ch.left, ComponentId::new(10));
    assert_eq!(ch.right, ComponentId::new(20));
    let ch = channel(&DelayChannelBuilder::with_delay(Duration::from_millis(5)));
    assert_eq!(ch.delay.as_nanos(), 5_000_000);
    let mut builder = DelayChannelBuilder::new();
    builder.delay(Duration::from_nanos(11));
    assert_eq!(channel(&builder).delay.as_nanos(), 11);
    builder.delay_sec(2);
    assert_eq!(channel(&builder).delay.as_nanos(), 2_000_000_000);
    builder.delay_millis(2);
    assert_eq!(channel(&builder).delay.as_nanos(), 2_000_000);
    builder.delay_micros(2);
    assert_eq!(channel(&builder).delay.as_nanos(), 2_000);
}

#[test]
fn basic_channel_takes_one_round() {
    let builder = BasicChannelBuilder {};
    let mut ch: BasicChannel =
        builder.build_channel(ChannelId::new(0), ComponentId::new(1), ComponentId::new(2));
    let mut sched: Scheduler<(), u8> = Scheduler::new();
    ch.accept_message_from(ComponentId::new(2), 9, &mut sched);
    match sched.next_event() {
        EventType::MsgRcvEvent(ev) => {
            assert_eq!(ev.receiver, ComponentId::new(1));
            assert_eq!(ev.message, 9);
        }
        _ => panic!("no arrival"),
    }
    assert_eq!(sched.get_curr_time().as_rounds(), 1);
    assert_eq!(sched.get_curr_time().as_nanos(), 1_000_000_000);
}
