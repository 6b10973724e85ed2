use d2simrs::basicnet::types::InterfaceId;
use d2simrs::simpledv::addr::HostAddr;
use d2simrs::simpledv::metric::Metric;
use d2simrs::simpledv::routingtable::RoutingTable;
use d2simrs::util::uid::UniqueId;

fn host(n: usize) -> HostAddr {
    HostAddr { router_id: UniqueId(n), interface_id: InterfaceId::from(0) }
}

fn hops(n: usize) -> Metric {
    let mut m = Metric::new_zero();
    for _ in 0..n {
        m = m + Metric::one_hop();
    }
    m
}

fn ifc(n: usize) -> InterfaceId {
    InterfaceId::from(n)
}

fn table(width: usize) -> RoutingTable {
    let mut t = RoutingTable::new();
    t.set_num_interfaces(width);
    t
}

fn route(t: &RoutingTable, n: usize) -> Option<(usize, usize)> {
    t.lookup(&host(n)).map(|(i, m)| (i.as_idx(), m.hop_count()))
}

fn offers(t: &RoutingTable, n: usize, width: usize) -> Vec<usize> {
    (0..width).map(|i| t.offered_by(&host(n), ifc(i)).unwrap().hop_count()).collect()
}

#[test]
fn local_entry_is_one_hop_away() {
    let mut t = table(3);
    assert_eq!(t.len(), 0);
    assert_eq!(t.num_interfaces(), 3);
    assert!(!t.contains(&host(1)));
    t.add_local_entry(host(1), ifc(1));
    assert_eq!(t.len(), 1);
    assert!(t.contains(&host(1)));
    assert_eq!(route(&t, 1), Some((1, 1)));
    assert_eq!(offers(&t, 1, 3), vec![15, 0, 15]);
    assert_eq!(route(&t, 2), None);
    assert!(t.offered_by(&host(2), ifc(0)).is_none());
}

#[test]
fn first_offer_creates_the_route() {
    let mut t = table(2);
    let r = t.update_route(ifc(1), host(1), hops(3));
    assert_eq!(r.map(|(i, m)| (i.as_idx(), m.hop_count())), Some((1, 4)));
    assert_eq!(route(&t, 1), Some((1, 4)));
    assert_eq!(offers(&t, 1, 2), vec![15, 3]);
    let change = t.route(0);
    assert_eq!(change.addr, host(1));
    assert_eq!(change.preferred, ifc(1));
    assert_eq!(change.metric.hop_count(), 4);
}

#[test]
fn own_distance_is_the_smallest_offer_plus_one() {
    let mut t = table(3);
    t.update_route(ifc(0), host(1), hops(5));
    // a worse offer changes nothing
    assert!(t.update_route(ifc(1), host(1), hops(7)).is_none());
    assert_eq!(route(&t, 1), Some((0, 6)));
    // a better one does
    let r = t.update_route(ifc(2), host(1), hops(2));
    assert_eq!(r.map(|(i, m)| (i.as_idx(), m.hop_count())), Some((2, 3)));
    assert_eq!(offers(&t, 1, 3), vec![5, 7, 2]);
    // the preferred interface gets worse: the next best takes over
    let r = t.update_route(ifc(2), host(1), hops(9));
    assert_eq!(r.map(|(i, m)| (i.as_idx(), m.hop_count())), Some((0, 6)));
    assert_eq!(route(&t, 1), Some((0, 6)));
}

#[test]
fn preferred_interface_is_kept_on_a_tie() {
    let mut t = table(3);
    t.update_route(ifc(2), host(1), hops(4));
    // interface 0 offers the same: interface 2 stays preferred
    assert!(t.update_route(ifc(0), host(1), hops(4)).is_none());
    assert_eq!(route(&t, 1), Some((2, 5)));
    // interface 2 falls behind: the first interface with the smallest offer
    assert!(t.update_route(ifc(1), host(1), hops(4)).is_none());
    assert!(t.update_route(ifc(2), host(1), hops(6)).is_none());
    assert_eq!(route(&t, 1), Some((0, 5)));
}

#[test]
fn offer_of_infinity_makes_the_route_unreachable() {
    let mut t = table(2);
    t.update_route(ifc(0), host(1), hops(1));
    let r = t.update_route(ifc(0), host(1), Metric::infinity());
    assert_eq!(r.map(|(i, m)| (i.as_idx(), m.hop_count())), Some((0, 15)));
    assert_eq!(route(&t, 1), Some((0, 15)));
    // the first offer may be infinity as well
    let r = t.update_route(ifc(1), host(2), Metric::infinity());
    assert_eq!(r.map(|(i, m)| (i.as_idx(), m.hop_count())), Some((1, 15)));
    // fourteen hops offered are fifteen hops from here: out of reach
    let r = t.update_route(ifc(1), host(3), hops(14));
    assert_eq!(r.map(|(i, m)| (i.as_idx(), m.hop_count())), Some((1, 15)));
}

#[test]
fn lost_neighbor_withdraws_its_offers() {
    let mut t = table(3);
    t.update_route(ifc(0), host(1), hops(2));
    t.update_route(ifc(1), host(1), hops(4));
    t.update_route(ifc(1), host(2), hops(1));
    t.update_route(ifc(0), host(3), hops(1));
    t.update_route(ifc(2), host(3), hops(1));
    // interface 0 is lost
    let changes = t.remove_entries_for_interface(ifc(0));
    let told: Vec<(HostAddr, usize, usize)> =
        changes.iter().map(|c| (c.addr, c.preferred.as_idx(), c.metric.hop_count())).collect();
    // host 1 moves to interface 1, host 2 is untouched, host 3 moves to interface 2
    assert_eq!(told, vec![(host(1), 1, 5), (host(3), 2, 2)]);
    assert_eq!(route(&t, 1), Some((1, 5)));
    assert_eq!(route(&t, 2), Some((1, 2)));
    assert_eq!(route(&t, 3), Some((2, 2)));
    assert_eq!(offers(&t, 1, 3), vec![15, 4, 15]);

    // interface 1 is lost too: hosts 1 and 2 are out of reach
    let changes = t.remove_entries_for_interface(ifc(1));
    let told: Vec<(HostAddr, usize, usize)> =
        changes.iter().map(|c| (c.addr, c.preferred.as_idx(), c.metric.hop_count())).collect();
    assert_eq!(told, vec![(host(1), 1, 15), (host(2), 1, 15)]);
    assert_eq!(route(&t, 3), Some((2, 2)));

    // once more: the unreachable routes are told again, nothing else
    let changes = t.remove_entries_for_interface(ifc(1));
    assert_eq!(changes.len(), 2);
}

#[test]
fn empty_table_has_nothing_to_withdraw() {
    let mut t = table(2);
    assert!(t.remove_entries_for_interface(ifc(1)).is_empty());
}
