use d2simrs::basicnet::types::InterfaceId;
use d2simrs::channels::delay_channel::DelayChannel;
use d2simrs::keys::{dummy_component, ComponentId};
use d2simrs::sim::Simulation;
use d2simrs::simpledv::addr::HostAddr;
use d2simrs::simpledv::builder::{NetworkBuilder, Node};
use d2simrs::simpledv::metric::Metric;
use d2simrs::simpledv::router::{Frame, InterfaceEvent, InternalEvent, Router};
use d2simrs::simtime::{SimTime, SimTimeDelta};
use d2simrs::util::uid::UniqueId;

type Net = Simulation<InternalEvent, Frame, Node, DelayChannel>;

const MAX_STEPS: usize = 100_000;

/// A host attached to the first of `routers` routers in a row.
fn chain(routers: usize) -> Net {
    let mut simulation = Net::new();
    let mut network_builder = NetworkBuilder::new();
    network_builder.add_host();
    for _ in 0..routers {
        network_builder.add_router();
    }
    for n in 0..routers {
        network_builder.add_link(n, n + 1);
    }
    network_builder.build_sim(&mut simulation);
    simulation
}

fn host_addr() -> HostAddr {
    HostAddr { router_id: UniqueId(1), interface_id: InterfaceId::from(0) }
}

fn router(sim: &Net, n: usize) -> &Router {
    sim.component(ComponentId::new(n)).as_router().unwrap()
}

fn route(sim: &Net, n: usize) -> Option<(usize, usize)> {
    router(sim, n)
        .control_plane()
        .routing_table()
        .lookup(&host_addr())
        .map(|(interface, metric)| (interface.as_idx(), metric.hop_count()))
}

fn after(secs: u64) -> SimTime {
    SimTime::default() + SimTimeDelta::from_secs(secs)
}

#[test]
fn chain_converges_to_hop_distances() {
    let mut sim = chain(4);
    assert_eq!(sim.component_count(), 5);
    assert_eq!(sim.channel_count(), 4);
    sim.call_init();
    let result = sim.run_until(after(60), MAX_STEPS);
    assert!(result.is_ok());
    assert!(sim.time().as_millis() > 60_000);
    // every router reaches the host through the interface toward R1
    assert_eq!(route(&sim, 1), Some((0, 1)));
    assert_eq!(route(&sim, 2), Some((0, 2)));
    assert_eq!(route(&sim, 3), Some((0, 3)));
    assert_eq!(route(&sim, 4), Some((0, 4)));
    sim.call_terminate();
}

#[test]
fn neighbors_are_discovered_on_every_link() {
    let mut sim = chain(4);
    sim.call_init();
    assert!(sim.run_until(after(1), MAX_STEPS).is_ok());
    for n in 1..=4usize {
        let table = router(&sim, n).control_plane().neighbor_table().to_vec();
        let links = if n == 4 { 1 } else { 2 };
        assert_eq!(table.len(), links);
        for (i, entry) in table.iter().enumerate() {
            assert_eq!(entry.interface_id.as_idx(), i);
            assert!(entry.is_up);
            if n == 1 && i == 0 {
                // the host says nothing
                assert!(!entry.is_simpledv_interface());
                assert!(entry.other_addr.is_none());
            } else {
                assert!(entry.is_active_simpledv_interface());
                let peer = entry.other_addr.unwrap();
                let expected = if i == 0 { n - 1 } else { n + 1 };
                assert_eq!(peer.router_id, UniqueId(expected));
            }
        }
    }
}

#[test]
fn poison_reverse_keeps_the_route_from_coming_back() {
    let mut sim = chain(4);
    sim.call_init();
    let toward_r2 = InterfaceId::from(1);
    let mut told = false;
    for _ in 0..MAX_STEPS {
        if !sim.step() {
            break;
        }
        // what R2 has told R1 of the host's route so far
        let offered = router(&sim, 1)
            .control_plane()
            .routing_table()
            .offered_by(&host_addr(), toward_r2);
        if let Some(metric) = offered {
            assert!(metric.is_infinity());
            told = true;
        }
        if sim.time().as_millis() > 20_000 {
            break;
        }
    }
    assert!(told);
    assert!(sim.sim_status().is_ok());
    // and R3 likewise tells R2 nothing but infinity
    let offered = router(&sim, 2)
        .control_plane()
        .routing_table()
        .offered_by(&host_addr(), toward_r2);
    assert_eq!(offered.map(|m| m.hop_count()), Some(Metric::infinity().hop_count()));
}

#[test]
fn interface_down_makes_the_route_unreachable() {
    let mut sim = chain(4);
    sim.call_init();
    // R2's interface toward R1 goes down after 30 seconds
    let event = InterfaceEvent { interface: InterfaceId::from(0), down: true };
    sim.sched_component_event(
        SimTimeDelta::from_secs(30),
        dummy_component(),
        ComponentId::new(2),
        Some(InternalEvent::InterfaceEvent(event)),
    );
    assert!(sim.run_until(after(29), MAX_STEPS).is_ok());
    assert_eq!(route(&sim, 4), Some((0, 4)));
    assert!(sim.run_until(after(60), MAX_STEPS).is_ok());
    let infinity = Metric::infinity().hop_count();
    assert_eq!(route(&sim, 1), Some((0, 1)));
    for n in 2..=4usize {
        let (_, distance) = route(&sim, n).unwrap();
        assert_eq!(distance, infinity);
    }
    // R1 has given up on R2 once the hold time was over
    let table = router(&sim, 1).control_plane().neighbor_table().to_vec();
    assert!(table[1].other_addr.is_none());
}

#[test]
fn silent_neighbor_is_given_up_after_the_hold_time() {
    let mut sim = chain(2);
    sim.call_init();
    // R1's interface toward R2 goes down: R2 hears no more Hellos
    let event = InterfaceEvent { interface: InterfaceId::from(1), down: true };
    sim.sched_component_event(
        SimTimeDelta::from_secs(12),
        dummy_component(),
        ComponentId::new(1),
        Some(InternalEvent::InterfaceEvent(event)),
    );
    assert!(sim.run_until(after(12), MAX_STEPS).is_ok());
    assert_eq!(route(&sim, 2), Some((0, 2)));
    // the last Hello came at 10 s; the hold time is 15 s
    assert!(sim.run_until(after(24), MAX_STEPS).is_ok());
    assert_eq!(route(&sim, 2), Some((0, 2)));
    assert!(sim.run_until(after(26), MAX_STEPS).is_ok());
    assert_eq!(route(&sim, 2).unwrap().1, Metric::infinity().hop_count());
    let table = router(&sim, 2).control_plane().neighbor_table().to_vec();
    assert!(table[0].other_addr.is_none());
    assert!(table[0].is_up);
}

#[test]
fn interface_event_for_a_missing_interface_aborts_the_run() {
    let mut sim = chain(2);
    sim.call_init();
    let event = InterfaceEvent { interface: InterfaceId::from(7), down: true };
    sim.sched_component_event(
        SimTimeDelta::from_secs(1),
        dummy_component(),
        ComponentId::new(1),
        Some(InternalEvent::InterfaceEvent(event)),
    );
    assert!(sim.run_until(after(60), MAX_STEPS).is_err());
    assert!(sim.time().as_millis() <= 1_000);
    assert!(sim.pending_count() > 0);
}

#[test]
fn wake_up_of_a_host_aborts_the_run() {
    let mut sim = chain(1);
    sim.call_init();
    sim.sched_component_event(
        SimTimeDelta::from_millis(1),
        dummy_component(),
        ComponentId::new(0),
        None,
    );
    assert!(sim.run(MAX_STEPS).is_err());
}
