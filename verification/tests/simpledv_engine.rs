use d2simrs::basicnet::nettraits::{ControlPlane, ControlRequest};
use d2simrs::basicnet::types::InterfaceId;
use d2simrs::simpledv::addr::{HostAddr, InterfaceAddress, SimpleAddress};
use d2simrs::simpledv::config::Config;
use d2simrs::simpledv::metric::Metric;
use d2simrs::simpledv::packets::{Route, SimpleDVPacket, SimpleDVPacketType};
use d2simrs::simpledv::timer::{HelloTimer, NeighborHoldTimer, SimpleDVTimer};
use d2simrs::simpledv::{Request, SimpleDiv};
use d2simrs::simtime::{SimTime, SimTimeDelta};
use d2simrs::util::uid::UniqueId;

fn ifc(n: usize) -> InterfaceId {
    InterfaceId::from(n)
}

fn at(millis: u64) -> SimTime {
    SimTime::default() + SimTimeDelta::from_millis(millis)
}

fn hops(n: usize) -> Metric {
    let mut m = Metric::new_zero();
    for _ in 0..n {
        m = m + Metric::one_hop();
    }
    m
}

fn host() -> HostAddr {
    HostAddr { router_id: UniqueId(9), interface_id: ifc(0) }
}

fn peer(n: usize) -> InterfaceAddress {
    InterfaceAddress { router_id: UniqueId(100 + n), interface_id: ifc(0) }
}

fn me(n: usize) -> InterfaceAddress {
    InterfaceAddress { router_id: UniqueId(5), interface_id: ifc(n) }
}

fn hello(n: usize) -> SimpleDVPacket {
    SimpleDVPacket::new_hello(&peer(n))
}

fn update(n: usize, addr: HostAddr, metric: Metric) -> SimpleDVPacket {
    SimpleDVPacket::new_update(&peer(n), me(n), &addr, metric)
}

/// Router 5 with `links` interfaces to routers, started, all interfaces up.
fn started(links: usize) -> SimpleDiv {
    let mut dv = SimpleDiv::new(UniqueId(5));
    for i in 0..links {
        dv.add_interface(ifc(i));
    }
    dv.start();
    for i in 0..links {
        let out = dv.on_interface_up(ifc(i));
        assert_eq!(out.len(), 2);
    }
    dv
}

/// As `started`, with the neighbor on every interface known since `now`.
fn with_neighbors(links: usize, now: SimTime) -> SimpleDiv {
    let mut dv = started(links);
    for i in 0..links {
        dv.receive_packet(ifc(i), &hello(i), now);
    }
    dv
}

/// The Updates among `out`: interface, destination, hop count.
fn updates(out: &[Request]) -> Vec<(usize, HostAddr, usize)> {
    let mut v = Vec::new();
    for r in out {
        if let ControlRequest::Send { interface, packet } = r {
            if let SimpleDVPacketType::Update(Route { addr, metric }) = packet.content {
                v.push((interface.as_idx(), addr, metric.hop_count()));
            }
        }
    }
    v
}

fn route(dv: &SimpleDiv) -> Option<(usize, usize)> {
    dv.routing_table().lookup(&host()).map(|(i, m)| (i.as_idx(), m.hop_count()))
}

#[test]
fn interface_up_says_hello_and_asks_for_the_timer() {
    let mut dv = SimpleDiv::new(UniqueId(5));
    assert_eq!(dv.router_id(), UniqueId(5));
    dv.add_interface(ifc(0));
    assert!(!dv.has_started());
    dv.start();
    assert!(dv.has_started());
    let out = dv.on_interface_up(ifc(0));
    assert_eq!(out.len(), 2);
    match &out[0] {
        ControlRequest::Send { interface, packet } => {
            assert_eq!(*interface, ifc(0));
            assert_eq!(packet.source, me(0));
            assert_eq!(packet.destination, SimpleAddress::MulticastAddress);
            assert_eq!(packet.content, SimpleDVPacketType::Hello);
        }
        _ => panic!("no Hello"),
    }
    match &out[1] {
        ControlRequest::Timer { delay, timer } => {
            assert_eq!(delay.as_nanos(), 5_000_000_000);
            assert_eq!(*timer, SimpleDVTimer::Hello(HelloTimer { interface_id: ifc(0) }));
        }
        _ => panic!("no timer"),
    }
    let entry = *dv.neighbor_table().entry(ifc(0));
    assert!(entry.is_up);
    assert!(entry.is_simpledv_interface());
    assert!(!entry.is_active_simpledv_interface());
    assert_eq!(entry.get_my_addr(), me(0));
    assert_eq!(entry.get_interface_id(), ifc(0));
}

#[test]
fn host_interface_installs_the_local_route() {
    let mut config = Config::new();
    assert!(config.is_empty());
    config.add_interface(ifc(1), host());
    assert!(config.has_interface(ifc(1)));
    assert!(!config.has_interface(ifc(0)));
    assert_eq!(config.get_config(ifc(1)).advertise_addr, host());
    let mut dv = SimpleDiv::new(UniqueId(5));
    dv.set_config(config);
    dv.add_interface(ifc(0));
    dv.add_interface(ifc(1));
    dv.start();
    assert_eq!(dv.on_interface_up(ifc(0)).len(), 2);
    // nothing is said to a host
    assert!(dv.on_interface_up(ifc(1)).is_empty());
    assert_eq!(route(&dv), Some((1, 1)));
    assert!(!dv.neighbor_table().entry(ifc(1)).is_simpledv_interface());
    // a Hello from the host's side breaks the rules
    let out = dv.receive_packet(ifc(1), &hello(1), at(10));
    assert!(matches!(out.as_slice(), [ControlRequest::Stop]));
    // a new neighbor is told of the route
    let out = dv.receive_packet(ifc(0), &hello(0), at(10));
    assert_eq!(out.len(), 2);
    assert_eq!(updates(&out), vec![(0, host(), 1)]);
    // the host's interface goes down: the route is withdrawn and the neighbor told
    let out = dv.on_interface_down(ifc(1));
    assert_eq!(updates(&out), vec![(0, host(), 15)]);
    assert_eq!(route(&dv), Some((1, 15)));
}

#[test]
fn first_hello_makes_the_neighbor_known() {
    let mut dv = started(2);
    let out = dv.receive_packet(ifc(1), &hello(1), at(1234));
    // no routes yet: only the hold timer
    assert_eq!(out.len(), 1);
    match &out[0] {
        ControlRequest::Timer { delay, timer } => {
            assert_eq!(delay.as_nanos(), 15_000_000_000);
            assert_eq!(*timer, SimpleDVTimer::Hold(NeighborHoldTimer { interface_id: ifc(1) }));
        }
        _ => panic!("no hold timer"),
    }
    let entry = *dv.neighbor_table().entry(ifc(1));
    assert_eq!(entry.other_addr, Some(peer(1)));
    assert_eq!(entry.last_hello_received, at(1234));
    assert!(entry.is_active_simpledv_interface());
    // a later Hello refreshes the time and asks for nothing
    assert!(dv.receive_packet(ifc(1), &hello(1), at(6000)).is_empty());
    assert_eq!(dv.neighbor_table().entry(ifc(1)).last_hello_received, at(6000));
    // a Hello from someone else on the same link breaks the rules
    let out = dv.receive_packet(ifc(1), &hello(0), at(7000));
    assert!(matches!(out.as_slice(), [ControlRequest::Stop]));
    assert_eq!(dv.neighbor_table().entry(ifc(1)).other_addr, Some(peer(1)));
    assert_eq!(dv.neighbor_table().entry(ifc(1)).last_hello_received, at(6000));
}

#[test]
fn update_from_an_unknown_neighbor_aborts_the_run() {
    let mut dv = started(2);
    let out = dv.receive_packet(ifc(0), &update(0, host(), hops(1)), at(5));
    assert!(matches!(out.as_slice(), [ControlRequest::Stop]));
    assert_eq!(route(&dv), None);
}

#[test]
fn changed_route_is_told_with_poison_reverse() {
    let mut dv = with_neighbors(3, at(0));
    let out = dv.receive_packet(ifc(1), &update(1, host(), hops(2)), at(10));
    assert_eq!(route(&dv), Some((1, 3)));
    // infinity toward the neighbor that the route leads through
    assert_eq!(updates(&out), vec![(0, host(), 3), (1, host(), 15), (2, host(), 3)]);
    for r in &out {
        match r {
            ControlRequest::Send { interface, packet } => {
                assert_eq!(packet.source, me(interface.as_idx()));
                assert_eq!(
                    packet.destination,
                    SimpleAddress::UnicastAddress(peer(interface.as_idx()))
                );
            }
            _ => panic!("only Updates are expected"),
        }
    }
    // a worse offer from elsewhere changes nothing and is not told
    assert!(dv.receive_packet(ifc(0), &update(0, host(), hops(8)), at(11)).is_empty());
    // the same offer again neither
    assert!(dv.receive_packet(ifc(1), &update(1, host(), hops(2)), at(12)).is_empty());
    // a better one moves the route
    let out = dv.receive_packet(ifc(2), &update(2, host(), hops(0)), at(13));
    assert_eq!(updates(&out), vec![(0, host(), 1), (1, host(), 1), (2, host(), 15)]);
    assert_eq!(route(&dv), Some((2, 1)));
}

#[test]
fn updates_go_to_active_neighbors_only() {
    let mut dv = started(3);
    dv.receive_packet(ifc(0), &hello(0), at(0));
    dv.receive_packet(ifc(2), &hello(2), at(0));
    let out = dv.receive_packet(ifc(0), &update(0, host(), hops(1)), at(1));
    assert_eq!(updates(&out), vec![(0, host(), 15), (2, host(), 2)]);
}

#[test]
fn hello_timer_repeats_while_the_interface_is_up() {
    let mut dv = started(1);
    let timer = SimpleDVTimer::new_hello_timer(ifc(0));
    let out = dv.on_timeout(timer, at(5000));
    assert_eq!(out.len(), 2);
    assert!(matches!(
        &out[0],
        ControlRequest::Send { packet, .. } if packet.content == SimpleDVPacketType::Hello
    ));
    assert!(matches!(
        &out[1],
        ControlRequest::Timer { delay, timer: t } if delay.as_nanos() == 5_000_000_000 && *t == timer
    ));
    dv.on_interface_down(ifc(0));
    assert!(dv.on_timeout(timer, at(10_000)).is_empty());
    // a timer for an interface that is not there
    let out = dv.on_timeout(SimpleDVTimer::new_hello_timer(ifc(4)), at(10_000));
    assert!(matches!(out.as_slice(), [ControlRequest::Stop]));
    let out = dv.on_timeout(SimpleDVTimer::new_hold_timer(ifc(4)), at(10_000));
    assert!(matches!(out.as_slice(), [ControlRequest::Stop]));
}

#[test]
fn hold_timer_waits_for_the_time_that_is_left() {
    let mut dv = with_neighbors(2, at(0));
    dv.receive_packet(ifc(0), &update(0, host(), hops(1)), at(1));
    // the last Hello on interface 0 came at 11 s
    dv.receive_packet(ifc(0), &hello(0), at(11_000));
    let timer = SimpleDVTimer::from_hold_timer(NeighborHoldTimer { interface_id: ifc(0) });
    let out = dv.on_timeout(timer, at(15_000));
    match out.as_slice() {
        [ControlRequest::Timer { delay, timer: t }] => {
            assert_eq!(delay.as_nanos(), 11_000_000_000);
            assert_eq!(*t, timer);
        }
        _ => panic!("the timer was not asked for again"),
    }
    assert_eq!(route(&dv), Some((0, 2)));
    // one nanosecond before the deadline
    let almost = SimTime::from_nanos(25_999_999_999);
    let out = dv.on_timeout(timer, almost);
    assert!(matches!(
        out.as_slice(),
        [ControlRequest::Timer { delay, .. }] if delay.as_nanos() == 1
    ));
    // at the deadline the neighbor is given up
    let out = dv.on_timeout(timer, at(26_000));
    assert_eq!(updates(&out), vec![(1, host(), 15)]);
    assert_eq!(route(&dv), Some((0, 15)));
    let entry = *dv.neighbor_table().entry(ifc(0));
    assert!(entry.other_addr.is_none());
    assert!(entry.last_hello_received.is_zero());
    assert!(entry.is_up);
    // the timer is stale now
    assert!(dv.on_timeout(timer, at(60_000)).is_empty());
    // the neighbor comes back and is told what the router knows: nothing reachable
    let out = dv.receive_packet(ifc(0), &hello(0), at(61_000));
    assert_eq!(out.len(), 2);
    assert_eq!(updates(&out), vec![(0, host(), 15)]);
}

#[test]
fn lost_neighbor_moves_the_route_to_the_next_best() {
    let mut dv = with_neighbors(3, at(0));
    dv.receive_packet(ifc(0), &update(0, host(), hops(1)), at(1));
    dv.receive_packet(ifc(2), &update(2, host(), hops(4)), at(2));
    assert_eq!(route(&dv), Some((0, 2)));
    let out = dv.on_interface_down(ifc(0));
    assert_eq!(route(&dv), Some((2, 5)));
    // interface 0 is down; the new next hop is told infinity
    assert_eq!(updates(&out), vec![(1, host(), 5), (2, host(), 15)]);
    let entry = *dv.neighbor_table().entry(ifc(0));
    assert!(!entry.is_up);
    assert!(entry.other_addr.is_none());
    // an interface without a neighbor goes down quietly
    let mut dv = started(2);
    assert!(dv.on_interface_down(ifc(1)).is_empty());
    assert!(!dv.neighbor_table().entry(ifc(1)).is_up);
}

#[test]
fn new_neighbor_is_told_of_every_route() {
    let mut dv = started(2);
    dv.receive_packet(ifc(0), &hello(0), at(0));
    let other = HostAddr { router_id: UniqueId(8), interface_id: ifc(3) };
    dv.receive_packet(ifc(0), &update(0, host(), hops(1)), at(1));
    dv.receive_packet(ifc(0), &update(0, other, hops(6)), at(2));
    let out = dv.receive_packet(ifc(1), &hello(1), at(3));
    assert_eq!(out.len(), 3);
    assert!(matches!(&out[0], ControlRequest::Timer { .. }));
    assert_eq!(updates(&out), vec![(1, host(), 2), (1, other, 7)]);
    dv.terminate();
    assert_eq!(dv.routing_table().len(), 2);
    assert_eq!(dv.neighbor_table().len(), 2);
    assert!(dv.config().is_empty());
}
