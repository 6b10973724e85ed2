use d2simrs::keys::ComponentId;
use d2simrs::scheduler::{EventType, Scheduler};
use d2simrs::simtime::{no_delta, SimTimeDelta};

fn unwrap_process_event(popped_ev: EventType<usize, ()>) -> usize {
    let ev = match popped_ev {
        EventType::ProcessEvent(ev) => Some(ev),
        _ => None,
    }
    .unwrap();
    ev.event.unwrap()
}

#[test]
fn test_order1() {
    const NUM_EV: usize = 5; // 3 does not work

    let process = ComponentId::new(1);
    let mut sched: Scheduler<usize, ()> = Scheduler::new();

    let idx_to_val = |idx: usize| 2 * idx;

    for idx in 0..NUM_EV {
        sched.sched_component_event(no_delta(), process, process, Some(idx_to_val(idx)));
    }

    // ----------------------------------------

    for idx in 0..NUM_EV {
        // peak the next item and assert its index
        let peaked_ev = sched.peek_index().unwrap();
        assert_eq!(idx, peaked_ev);
        println!("peaked_ev = {:?}", peaked_ev);

        // get the next item and assert its value
        let popped_ev = sched.next_event();
        assert!(matches!(popped_ev, EventType::ProcessEvent(_)));
        let popped_num = unwrap_process_event(popped_ev);
        assert_eq!(idx_to_val(idx), popped_num);
        println!("popped_ev = {:?}", popped_num);
    }

    assert!(matches!(sched.next_event(), EventType::EndSimulation));
}

#[test]
fn equal_times_pop_in_call_order() {
    let a = ComponentId::new(10);
    let b = ComponentId::new(11);
    let c = ComponentId::new(12);
    let mut sched: Scheduler<char, ()> = Scheduler::new();
    sched.sched_self_event_with_data(no_delta(), a, 'A');
    sched.sched_self_event_with_data(no_delta(), b, 'B');
    sched.sched_self_event_with_data(no_delta(), c, 'C');
    let mut seen = Vec::new();
    loop {
        match sched.next_event() {
            EventType::ProcessEvent(ev) => seen.push(ev.event.unwrap()),
            EventType::EndSimulation => break,
            _ => unreachable!(),
        }
    }
    assert_eq!(seen, vec!['A', 'B', 'C']);
}

#[test]
fn pops_are_ordered_by_time_then_insertion() {
    let p = ComponentId::new(0);
    let mut sched: Scheduler<u32, ()> = Scheduler::new();
    sched.sched_self_event_with_data(SimTimeDelta::from_secs(5), p, 1);
    sched.sched_self_event_with_data(SimTimeDelta::from_secs(1), p, 2);
    sched.sched_self_event_with_data(SimTimeDelta::from_secs(5), p, 3);
    sched.sched_self_event_with_data(SimTimeDelta::from_secs(3), p, 4);
    sched.sched_self_event_with_data(SimTimeDelta::from_secs(1), p, 5);
    let mut seen = Vec::new();
    let mut times = Vec::new();
    loop {
        match sched.next_event() {
            EventType::ProcessEvent(ev) => {
                seen.push(ev.event.unwrap());
                times.push(sched.get_curr_time().as_rounds());
            }
            EventType::EndSimulation => break,
            _ => unreachable!(),
        }
    }
    assert_eq!(seen, vec![2, 5, 4, 1, 3]);
    assert_eq!(times, vec![1, 1, 3, 5, 5]);
    assert_eq!(sched.get_curr_time().as_millis(), 5000);
}

#[test]
fn failure_flag_ends_the_run_at_once() {
    let p = ComponentId::new(0);
    let mut sched: Scheduler<u32, ()> = Scheduler::new();
    sched.sched_self_event_with_data(no_delta(), p, 1);
    assert!(sched.sim_status().is_ok());
    sched.sim_error();
    assert!(sched.sim_status().is_err());
    assert!(matches!(sched.next_event(), EventType::EndSimulation));
    assert_eq!(sched.pending_count(), 1);
}
