use d2simrs::channels::delay_channel::{DelayChannel, DelayChannelBuilder};
use d2simrs::component::ChannelLabel;
use d2simrs::component::Component;
use d2simrs::keys::{ChannelId, ComponentId};
use d2simrs::lcr::{
    validate, Message, Process, ProcessBuilder, ProcessState, Reaction, SynchProcessBuilder,
};
use d2simrs::scheduler::{EventType, Scheduler};
use d2simrs::sim::Simulation;
use d2simrs::synch::channel::{BasicChannel, BasicChannelBuilder};
use d2simrs::synch::process::Synchronous;
use d2simrs::util::uid::UniqueId;

const NUM_NODES: usize = 10;

/// Exactly one process is the leader, it has the largest identifier, and
/// every other process knows it.
fn check_ring(processes: &[&Process]) {
    let max_uid = processes.iter().map(|p| p.uid.0).max().unwrap();
    let mut leaders = 0;
    for p in processes {
        match p.state {
            ProcessState::Leader => {
                leaders += 1;
                assert_eq!(p.uid.0, max_uid);
            }
            ProcessState::Terminated(leader) => assert_eq!(leader.0, max_uid),
            ProcessState::Unknown => panic!("a process never learned the leader"),
        }
    }
    assert_eq!(leaders, 1);
    assert!(validate(processes));
}

fn process_in(index: usize, uid: usize, state: ProcessState) -> Process {
    let mut p = Process::new(ComponentId::new(index), UniqueId(uid));
    p.state = state;
    p
}

#[test]
fn ring_elects_the_largest_uid() {
    let mut simulation: Simulation<(), Message, Process, DelayChannel> = Simulation::new();
    let mut process_builder = ProcessBuilder::new(100);
    let mut nodes = Vec::new();
    for _ in 0..NUM_NODES {
        nodes.push(simulation.add_component(&mut process_builder));
    }
    let mut builder = DelayChannelBuilder::new();
    builder.delay_millis(1);
    for idx0 in 0..NUM_NODES {
        let idx1 = (idx0 + 1) % NUM_NODES;
        simulation.add_channel(&mut builder, nodes[idx0], nodes[idx1]);
    }
    simulation.call_init();
    let result = simulation.run(100_000);
    assert!(result.is_ok());
    assert_eq!(simulation.pending_count(), 0);
    simulation.call_terminate();

    let processes: Vec<&Process> = nodes.iter().map(|id| simulation.component(*id)).collect();
    check_ring(&processes);
    // the largest identifier goes once round the ring, then the announcement does
    assert_eq!(simulation.time().as_millis(), 2 * NUM_NODES as u128);
}

#[test]
fn synchronous_ring_elects_the_largest_uid() {
    let mut simulation: Simulation<(), Message, Synchronous<Process>, BasicChannel> =
        Simulation::new();
    let mut process_builder = SynchProcessBuilder::new(100);
    let mut nodes = Vec::new();
    for _ in 0..NUM_NODES {
        nodes.push(simulation.add_component(&mut process_builder));
    }
    let builder = BasicChannelBuilder {};
    let mut builder = builder;
    for idx0 in 0..NUM_NODES {
        let idx1 = (idx0 + 1) % NUM_NODES;
        simulation.add_channel(&mut builder, nodes[idx0], nodes[idx1]);
    }
    simulation.call_init();
    assert!(simulation.run(100_000).is_ok());
    simulation.call_terminate();

    let processes: Vec<&Process> =
        nodes.iter().map(|id| &simulation.component(*id).process).collect();
    check_ring(&processes);
    // one round per hop: once round for the identifier, once for the announcement
    assert_eq!(simulation.time().as_rounds(), 2 * NUM_NODES as u64);
    for p in &processes {
        // every process was told of the round in which it last received something
        assert!(p.curr_round.as_rounds() >= 1);
    }
}

#[test]
fn reactions_of_a_process() {
    let me = UniqueId(7);
    let mut p = Process::new(ComponentId::new(0), me);
    assert!(matches!(p.round(Message::SendUId(UniqueId(3))), Reaction::Discard));
    assert_eq!(p.state, ProcessState::Unknown);
    assert!(matches!(
        p.round(Message::SendUId(UniqueId(9))),
        Reaction::Forward(Message::SendUId(UniqueId(9)))
    ));
    assert_eq!(p.state, ProcessState::Unknown);
    assert!(matches!(
        p.round(Message::SendUId(me)),
        Reaction::Forward(Message::Terminate(UniqueId(7)))
    ));
    assert_eq!(p.state, ProcessState::Leader);
    assert!(matches!(p.round(Message::SendUId(UniqueId(9))), Reaction::Refuse));
    assert!(matches!(p.round(Message::Terminate(UniqueId(9))), Reaction::Refuse));
    assert!(matches!(p.round(Message::Terminate(me)), Reaction::Discard));

    let mut q = Process::new(ComponentId::new(1), UniqueId(2));
    assert!(matches!(
        q.round(Message::Terminate(me)),
        Reaction::Forward(Message::Terminate(UniqueId(7)))
    ));
    assert_eq!(q.state, ProcessState::Terminated(me));
    assert!(matches!(q.round(Message::Terminate(me)), Reaction::Refuse));
}

#[test]
fn message_from_the_wrong_side_aborts_the_run() {
    let mut p = Process::new(ComponentId::new(0), UniqueId(1));
    Component::add_channel(&mut p, ChannelId::new(4), ChannelLabel::Left);
    Component::add_channel(&mut p, ChannelId::new(5), ChannelLabel::Right);
    let mut sched: Scheduler<(), Message> = Scheduler::new();
    Component::receive_msg(&mut p, ChannelId::new(4), Message::SendUId(UniqueId(9)), &mut sched);
    assert!(sched.sim_status().is_err());
    assert_eq!(sched.pending_count(), 0);

    let mut sched: Scheduler<(), Message> = Scheduler::new();
    Component::receive_msg(&mut p, ChannelId::new(5), Message::SendUId(UniqueId(9)), &mut sched);
    assert!(sched.sim_status().is_ok());
    match sched.next_event() {
        EventType::MsgSendEvent(ev) => {
            assert_eq!(ev.channel, ChannelId::new(4));
            assert_eq!(ev.sender, ComponentId::new(0));
            assert_eq!(ev.message, Message::SendUId(UniqueId(9)));
        }
        _ => panic!("the identifier was not passed on"),
    }
}

#[test]
fn process_without_channels_aborts_the_run() {
    let mut p = Process::new(ComponentId::new(0), UniqueId(1));
    let mut sched: Scheduler<(), Message> = Scheduler::new();
    Component::init(&mut p, &mut sched);
    assert!(sched.sim_status().is_err());
}

#[test]
fn validate_accepts_one_leader_known_to_all() {
    let a = process_in(0, 3, ProcessState::Terminated(UniqueId(9)));
    let b = process_in(1, 9, ProcessState::Leader);
    let c = process_in(2, 5, ProcessState::Terminated(UniqueId(9)));
    assert!(validate(&[&a, &b, &c]));
    // a ring of one
    assert!(validate(&[&b]));
}

#[test]
fn validate_refuses_a_ring_without_a_leader() {
    assert!(!validate(&[]));
    let a = process_in(0, 3, ProcessState::Terminated(UniqueId(9)));
    let c = process_in(2, 5, ProcessState::Terminated(UniqueId(9)));
    assert!(!validate(&[&a, &c]));
}

#[test]
fn validate_refuses_a_second_leader() {
    let a = process_in(0, 9, ProcessState::Leader);
    let b = process_in(1, 9, ProcessState::Leader);
    assert!(!validate(&[&a, &b]));
}

#[test]
fn validate_refuses_a_leader_that_is_not_the_largest() {
    let a = process_in(0, 3, ProcessState::Leader);
    let b = process_in(1, 7, ProcessState::Terminated(UniqueId(3)));
    assert!(!validate(&[&a, &b]));
}

#[test]
fn validate_refuses_processes_that_disagree() {
    let a = process_in(0, 3, ProcessState::Terminated(UniqueId(9)));
    let b = process_in(1, 9, ProcessState::Leader);
    let c = process_in(2, 5, ProcessState::Terminated(UniqueId(5)));
    assert!(!validate(&[&a, &b, &c]));
    // all followers agree, but not on the leader
    let d = process_in(3, 4, ProcessState::Terminated(UniqueId(3)));
    assert!(!validate(&[&b, &d]));
}

#[test]
fn validate_refuses_a_process_that_never_learned() {
    let a = process_in(0, 3, ProcessState::Unknown);
    let b = process_in(1, 9, ProcessState::Leader);
    assert!(!validate(&[&a, &b]));
}
