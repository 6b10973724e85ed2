//! The routing table: for every advertised destination the distance that
//! each interface offers, the interface that is preferred, and the
//! router's own distance.
//!
//! Of every entry it holds that the router's own distance is the smallest
//! offered distance plus one hop, and that the preferred interface offers
//! that smallest distance.

use crate::basicnet::types::InterfaceId;
use crate::simpledv::addr::HostAddr;
use crate::simpledv::metric::{infinity, metric_add, Metric};
use vstd::prelude::*;

verus! {

/// The smallest of the distances, or infinity where there is none below
/// it.
pub open spec fn min_of(d: Seq<nat>) -> nat
    decreases d.len(),
{
    if d.len() == 0 {
        infinity()
    } else {
        let m = min_of(d.drop_last());
        if d.last() < m {
            d.last()
        } else {
            m
        }
    }
}

/// The first position that holds the smallest distance.
pub open spec fn first_argmin(d: Seq<nat>) -> nat
    decreases d.len(),
{
    if d.len() == 0 {
        0
    } else if d.last() < min_of(d.drop_last()) {
        (d.len() - 1) as nat
    } else {
        first_argmin(d.drop_last())
    }
}

/// All distances are at most infinity.
pub open spec fn bounded(d: Seq<nat>) -> bool {
    forall|i: int| 0 <= i < d.len() ==> #[trigger] d[i] <= infinity()
}

/// `min_of` is a lower bound, and `first_argmin` is the first position
/// that reaches it.
pub proof fn lemma_min_of(d: Seq<nat>)
    requires
        bounded(d),
    ensures
        min_of(d) <= infinity(),
        forall|i: int| 0 <= i < d.len() ==> min_of(d) <= #[trigger] d[i],
        d.len() > 0 ==> first_argmin(d) < d.len() && d[first_argmin(d) as int] == min_of(d),
        forall|i: int| 0 <= i < first_argmin(d) ==> min_of(d) < #[trigger] d[i],
    decreases d.len(),
{
    if d.len() > 0 {
        let front = d.drop_last();
        assert forall|i: int| 0 <= i < front.len() implies #[trigger] front[i] <= infinity() by {
            assert(front[i] == d[i]);
        }
        lemma_min_of(front);
        assert forall|i: int| 0 <= i < d.len() implies min_of(d) <= #[trigger] d[i] by {
            if i < front.len() {
                assert(front[i] == d[i]);
            }
        }
        assert forall|i: int| 0 <= i < first_argmin(d) implies min_of(d) < #[trigger] d[i] by {
            assert(front[i] == d[i]);
        }
        if front.len() == 0 {
            assert(d.last() <= infinity());
        } else if !(d.last() < min_of(front)) {
            assert(front[first_argmin(front) as int] == d[first_argmin(front) as int]);
        }
    }
}

/// The preferred interface for the distances `d`, given the interface
/// preferred so far: that one where it still offers the smallest distance,
/// else the first that does.
pub open spec fn choose_preferred(d: Seq<nat>, current: nat) -> nat {
    if current < d.len() && d[current as int] == min_of(d) {
        current
    } else {
        first_argmin(d)
    }
}

/// One entry of the routing table as contracts see it.
pub struct RouteView {
    pub addr: HostAddr,
    /// The distance that each interface offers, by interface number.
    pub distances: Seq<nat>,
    /// The number of the preferred interface.
    pub preferred: nat,
    /// The router's own distance.
    pub my_distance: nat,
}

impl RouteView {
    /// The entry's invariant, for a router with `width` interfaces.
    pub open spec fn wf(self, width: nat) -> bool {
        &&& self.distances.len() == width
        &&& bounded(self.distances)
        &&& self.preferred < width
        &&& self.distances[self.preferred as int] == min_of(self.distances)
        &&& self.my_distance == metric_add(min_of(self.distances), 1)
    }

    /// The entry for a destination that interface `i` is the first to
    /// offer, at distance `m`.
    pub open spec fn first_offer(addr: HostAddr, width: nat, i: nat, m: nat) -> RouteView {
        RouteView {
            addr,
            distances: Seq::new(
                width,
                |j: int|
                    if j == i {
                        m
                    } else {
                        infinity()
                    },
            ),
            preferred: i,
            my_distance: metric_add(m, 1),
        }
    }

    /// The entry after interface `i` has offered the distance `m`.
    pub open spec fn offered(self, i: nat, m: nat) -> RouteView {
        let d = self.distances.update(i as int, m);
        RouteView {
            addr: self.addr,
            distances: d,
            preferred: choose_preferred(d, self.preferred),
            my_distance: metric_add(min_of(d), 1),
        }
    }

    /// Whether the loss of a neighbor, which turned `self` into `after`,
    /// has to be told to the other neighbors: the preferred interface
    /// changed, or the destination is out of reach.
    pub open spec fn lost_route(self, after: RouteView) -> bool {
        after.preferred != self.preferred || after.my_distance >= infinity()
    }
}

/// A first offer makes a sound entry.
pub proof fn lemma_first_offer_wf(addr: HostAddr, width: nat, i: nat, m: nat)
    requires
        i < width,
        m <= infinity(),
    ensures
        RouteView::first_offer(addr, width, i, m).wf(width),
{
    let r = RouteView::first_offer(addr, width, i, m);
    lemma_min_of(r.distances);
    lemma_min_of_reached(r.distances, i as int);
    if m < infinity() {
    } else {
    }
}

/// A distance that nothing undercuts is the smallest.
pub proof fn lemma_min_of_reached(d: Seq<nat>, k: int)
    requires
        bounded(d),
        0 <= k < d.len(),
        forall|i: int| 0 <= i < d.len() ==> d[k] <= #[trigger] d[i],
    ensures
        min_of(d) == d[k],
{
    lemma_min_of(d);
    assert(d[first_argmin(d) as int] == min_of(d));
}

/// An offer keeps an entry sound.
pub proof fn lemma_offered_wf(r: RouteView, width: nat, i: nat, m: nat)
    requires
        r.wf(width),
        i < width,
        m <= infinity(),
    ensures
        r.offered(i, m).wf(width),
{
    let d = r.distances.update(i as int, m);
    assert forall|j: int| 0 <= j < d.len() implies #[trigger] d[j] <= infinity() by {
        if j != i {
            assert(d[j] == r.distances[j]);
        }
    }
    lemma_min_of(d);
}

/// A table as contracts see it.
pub struct RoutingTableView {
    pub entries: Seq<RouteView>,
    /// The number of interfaces of the router.
    pub width: nat,
}

/// The position of the entry for `addr`, if there is one.
pub open spec fn route_index(entries: Seq<RouteView>, addr: HostAddr) -> Option<int>
    decreases entries.len(),
{
    if entries.len() == 0 {
        None
    } else if entries.last().addr == addr {
        Some(entries.len() - 1)
    } else {
        route_index(entries.drop_last(), addr)
    }
}

/// No destination has two entries.
pub open spec fn distinct_addrs(entries: Seq<RouteView>) -> bool {
    forall|i: int, j: int|
        0 <= i < j < entries.len() ==> (#[trigger] entries[i]).addr != (#[trigger] entries[j]).addr
}

/// `route_index` finds the entry of a destination, and finds one exactly
/// when there is one.
pub proof fn lemma_route_index(entries: Seq<RouteView>, addr: HostAddr)
    ensures
        match route_index(entries, addr) {
            Some(k) => 0 <= k < entries.len() && entries[k].addr == addr,
            None => forall|j: int| 0 <= j < entries.len() ==> (#[trigger] entries[j]).addr != addr,
        },
    decreases entries.len(),
{
    if entries.len() > 0 && entries.last().addr != addr {
        let front = entries.drop_last();
        lemma_route_index(front, addr);
        if route_index(front, addr) is None {
            assert forall|j: int| 0 <= j < entries.len() implies (#[trigger] entries[j]).addr
                != addr by {
                if j < front.len() {
                    assert(front[j] == entries[j]);
                }
            }
        }
    }
}

/// Where no destination has two entries, the entry at `k` is the one that
/// `route_index` finds for its destination.
pub proof fn lemma_route_index_unique(entries: Seq<RouteView>, k: int)
    requires
        distinct_addrs(entries),
        0 <= k < entries.len(),
    ensures
        route_index(entries, entries[k].addr) == Some(k),
{
    lemma_route_index(entries, entries[k].addr);
}

impl RoutingTableView {
    pub open spec fn wf(self) -> bool {
        &&& distinct_addrs(self.entries)
        &&& forall|k: int| 0 <= k < self.entries.len() ==> (#[trigger] self.entries[k]).wf(self.width)
    }

    /// The table after interface `i` has offered `addr` at distance `m`.
    pub open spec fn offered(self, i: nat, addr: HostAddr, m: nat) -> RoutingTableView {
        match route_index(self.entries, addr) {
            Some(k) => RoutingTableView {
                entries: self.entries.update(k, self.entries[k].offered(i, m)),
                width: self.width,
            },
            None => RoutingTableView {
                entries: self.entries.push(RouteView::first_offer(addr, self.width, i, m)),
                width: self.width,
            },
        }
    }

    /// What an offer yields: the new preferred interface and distance
    /// where the router's own distance changed or the destination is new,
    /// nothing otherwise.
    pub open spec fn offer_result(self, i: nat, addr: HostAddr, m: nat) -> Option<(nat, nat)> {
        match route_index(self.entries, addr) {
            Some(k) => {
                let after = self.entries[k].offered(i, m);
                if after.my_distance != self.entries[k].my_distance {
                    Some((after.preferred, after.my_distance))
                } else {
                    None
                }
            },
            None => Some((i, metric_add(m, 1))),
        }
    }

    /// The table after the neighbor on interface `i` was lost: that
    /// interface offers infinity for every destination.
    pub open spec fn neighbor_lost(self, i: nat) -> RoutingTableView {
        RoutingTableView {
            entries: Seq::new(self.entries.len(), |k: int| self.entries[k].offered(i, infinity())),
            width: self.width,
        }
    }
}

/// An offer keeps a table sound.
pub proof fn lemma_table_offered_wf(t: RoutingTableView, i: nat, addr: HostAddr, m: nat)
    requires
        t.wf(),
        i < t.width,
        m <= infinity(),
    ensures
        t.offered(i, addr, m).wf(),
{
    lemma_route_index(t.entries, addr);
    let after = t.offered(i, addr, m);
    match route_index(t.entries, addr) {
        Some(k) => {
            lemma_offered_wf(t.entries[k], t.width, i, m);
            assert forall|a: int, b: int| 0 <= a < b < after.entries.len() implies (
            #[trigger] after.entries[a]).addr != (#[trigger] after.entries[b]).addr by {
                assert(after.entries[a].addr == t.entries[a].addr);
                assert(after.entries[b].addr == t.entries[b].addr);
            }
            assert forall|j: int| 0 <= j < after.entries.len() implies (
            #[trigger] after.entries[j]).wf(after.width) by {
                if j != k {
                    assert(after.entries[j] == t.entries[j]);
                }
            }
        },
        None => {
            lemma_first_offer_wf(addr, t.width, i, m);
            assert forall|a: int, b: int| 0 <= a < b < after.entries.len() implies (
            #[trigger] after.entries[a]).addr != (#[trigger] after.entries[b]).addr by {
                assert(after.entries[a] == t.entries[a]);
                if b < t.entries.len() {
                    assert(after.entries[b] == t.entries[b]);
                }
            }
            assert forall|j: int| 0 <= j < after.entries.len() implies (
            #[trigger] after.entries[j]).wf(after.width) by {
                if j < t.entries.len() {
                    assert(after.entries[j] == t.entries[j]);
                }
            }
        },
    }
}

/// The loss of a neighbor keeps a table sound.
pub proof fn lemma_table_neighbor_lost_wf(t: RoutingTableView, i: nat)
    requires
        t.wf(),
        i < t.width,
    ensures
        t.neighbor_lost(i).wf(),
{
    let after = t.neighbor_lost(i);
    assert forall|j: int| 0 <= j < after.entries.len() implies (#[trigger] after.entries[j]).wf(
        after.width,
    ) by {
        lemma_offered_wf(t.entries[j], t.width, i, infinity());
    }
    assert forall|a: int, b: int| 0 <= a < b < after.entries.len() implies (
    #[trigger] after.entries[a]).addr != (#[trigger] after.entries[b]).addr by {
        assert(after.entries[a].addr == t.entries[a].addr);
        assert(after.entries[b].addr == t.entries[b].addr);
    }
}

/// The hop counts of a list of metrics.
pub open spec fn hops(d: Seq<Metric>) -> Seq<nat> {
    Seq::new(d.len(), |i: int| d[i]@)
}

#[derive(Debug)]
pub struct RoutingTableEntry {
    addr: HostAddr,
    // the distance that each interface offers, by interface number
    distances: Vec<Metric>,
    preferred_neighbor: InterfaceId,
    my_distance: Metric,
}

impl View for RoutingTableEntry {
    type V = RouteView;

    closed spec fn view(&self) -> RouteView {
        RouteView {
            addr: self.addr,
            distances: hops(self.distances@),
            preferred: self.preferred_neighbor@,
            my_distance: self.my_distance@,
        }
    }
}

/// A change of a route that the neighbors have to be told of.
#[derive(Debug, Clone, Copy, PartialEq, Eq, Structural)]
pub struct RouteChange {
    pub addr: HostAddr,
    /// The interface that is preferred now.
    pub preferred: InterfaceId,
    /// The router's distance now.
    pub metric: Metric,
}

impl RouteChange {
    /// The change that describes the entry `r`.
    pub open spec fn describes(self, r: RouteView) -> bool {
        self.addr == r.addr && self.preferred@ == r.preferred && self.metric@ == r.my_distance
    }
}

/// The entries of `after`, in order, that differ from their counterpart in
/// `before` in a way the neighbors have to be told of.
pub open spec fn lost_routes(before: Seq<RouteView>, after: Seq<RouteView>) -> Seq<RouteView>
    decreases after.len(),
{
    if after.len() == 0 || before.len() != after.len() {
        Seq::empty()
    } else {
        let rest = lost_routes(before.drop_last(), after.drop_last());
        if before.last().lost_route(after.last()) {
            rest.push(after.last())
        } else {
            rest
        }
    }
}

/// The smallest distance in `d` and the first position that holds it.
fn smallest(d: &Vec<Metric>) -> (r: (Metric, usize))
    ensures
        r.0@ == min_of(hops(d@)),
        r.1 == first_argmin(hops(d@)),
{
    let mut best = Metric::infinity();
    let mut at: usize = 0;
    let mut i: usize = 0;
    while i < d.len()
        invariant
            i <= d@.len(),
            best@ == min_of(hops(d@).take(i as int)),
            at == first_argmin(hops(d@).take(i as int)),
        decreases d@.len() - i,
    {
        proof {
            assert(hops(d@).take(i + 1).drop_last() =~= hops(d@).take(i as int));
        }
        if d[i].is_less(&best) {
            best = d[i];
            at = i;
        }
        i += 1;
    }
    proof {
        assert(hops(d@).take(d@.len() as int) =~= hops(d@));
    }
    (best, at)
}

impl RoutingTableEntry {
    /// The entry for a destination that interface `if_id` is the first to
    /// offer.
    fn first_offer(addr: HostAddr, width: usize, if_id: InterfaceId, metric: Metric) -> (r: Self)
        requires
            if_id@ < width,
        ensures
            r@ == RouteView::first_offer(addr, width as nat, if_id@, metric@),
    {
        let mut distances: Vec<Metric> = Vec::new();
        let mut j: usize = 0;
        while j < width
            invariant
                j <= width,
                distances@.len() == j,
                forall|k: int|
                    0 <= k < j ==> (#[trigger] distances@[k])@ == if k == if_id@ {
                        metric@
                    } else {
                        infinity()
                    },
            decreases width - j,
        {
            if if_id.is(j) {
                distances.push(metric);
            } else {
                distances.push(Metric::infinity());
            }
            j += 1;
        }
        let r = RoutingTableEntry {
            addr,
            distances,
            preferred_neighbor: if_id,
            my_distance: metric + Metric::one_hop(),
        };
        proof {
            assert(r@.distances =~= RouteView::first_offer(
                addr,
                width as nat,
                if_id@,
                metric@,
            ).distances);
        }
        r
    }

    /// Take the offer of `metric` by interface `if_id`.
    fn offer(&mut self, if_id: InterfaceId, metric: Metric)
        requires
            if_id@ < old(self)@.distances.len(),
        ensures
            final(self)@ == old(self)@.offered(if_id@, metric@),
    {
        self.distances[if_id.as_idx()] = metric;
        proof {
            assert(hops(self.distances@) =~= old(self)@.distances.update(if_id@ as int, metric@));
        }
        let (best, at) = smallest(&self.distances);
        let current = self.preferred_neighbor.as_idx();
        let keep = current < self.distances.len() && self.distances[current].hop_count()
            == best.hop_count();
        if !keep {
            self.preferred_neighbor = InterfaceId::from(at);
        }
        self.my_distance = best + Metric::one_hop();
    }
}

#[derive(Debug)]
pub struct RoutingTable {
    storage: Vec<RoutingTableEntry>,
    num_interfaces: usize,
}

impl View for RoutingTable {
    type V = RoutingTableView;

    closed spec fn view(&self) -> RoutingTableView {
        RoutingTableView {
            entries: Seq::new(self.storage@.len(), |k: int| self.storage@[k]@),
            width: self.num_interfaces as nat,
        }
    }
}

impl RoutingTable {
    pub fn new() -> (r: Self)
        ensures
            r@.wf(),
            r@.entries.len() == 0,
            r@.width == 0,
    {
        RoutingTable { storage: Vec::new(), num_interfaces: 0 }
    }

    /// Fix the number of interfaces. The table must still be empty.
    pub fn set_num_interfaces(&mut self, num_interfaces: usize)
        requires
            old(self)@.entries.len() == 0,
        ensures
            final(self)@.entries.len() == 0,
            final(self)@.width == num_interfaces,
            final(self)@.wf(),
    {
        self.num_interfaces = num_interfaces;
    }

    pub fn len(&self) -> (r: usize)
        ensures
            r == self@.entries.len(),
    {
        self.storage.len()
    }

    /// The number of interfaces that the table was set up for.
    pub fn num_interfaces(&self) -> (r: usize)
        ensures
            r == self@.width,
    {
        self.num_interfaces
    }

    fn find(&self, addr: &HostAddr) -> (r: Option<usize>)
        requires
            self@.wf(),
        ensures
            match r {
                Some(k) => route_index(self@.entries, *addr) == Some(k as int) && k
                    < self@.entries.len(),
                None => route_index(self@.entries, *addr) is None,
            },
    {
        let mut i: usize = 0;
        while i < self.storage.len()
            invariant
                self@.wf(),
                i <= self.storage@.len(),
                forall|j: int| 0 <= j < i ==> (#[trigger] self@.entries[j]).addr != *addr,
            decreases self.storage@.len() - i,
        {
            if self.storage[i].addr == *addr {
                proof {
                    assert(self@.entries[i as int].addr == *addr);
                    lemma_route_index_unique(self@.entries, i as int);
                }
                return Some(i);
            }
            i += 1;
        }
        proof {
            lemma_route_index(self@.entries, *addr);
        }
        None
    }

    /// Whether the table holds a route to `addr`.
    pub fn contains(&self, addr: &HostAddr) -> (r: bool)
        requires
            self@.wf(),
        ensures
            r == (route_index(self@.entries, *addr) is Some),
    {
        self.find(addr).is_some()
    }

    /// The preferred interface and the router's own distance for `addr`,
    /// if the table holds a route to it.
    pub fn lookup(&self, addr: &HostAddr) -> (r: Option<(InterfaceId, Metric)>)
        requires
            self@.wf(),
        ensures
            match route_index(self@.entries, *addr) {
                Some(k) => r is Some && r.unwrap().0@ == self@.entries[k].preferred
                    && r.unwrap().1@ == self@.entries[k].my_distance,
                None => r is None,
            },
    {
        match self.find(addr) {
            Some(k) => Some((self.storage[k].preferred_neighbor, self.storage[k].my_distance)),
            None => None,
        }
    }

    /// The distance that interface `if_id` offers for `addr`, if the table
    /// holds a route to it.
    pub fn offered_by(&self, addr: &HostAddr, if_id: InterfaceId) -> (r: Option<Metric>)
        requires
            self@.wf(),
            if_id@ < self@.width,
        ensures
            match route_index(self@.entries, *addr) {
                Some(k) => r is Some && r.unwrap()@ == self@.entries[k].distances[if_id@ as int],
                None => r is None,
            },
    {
        match self.find(addr) {
            Some(k) => {
                proof {
                    assert(self@.entries[k as int].wf(self@.width));
                }
                Some(self.storage[k].distances[if_id.as_idx()])
            },
            None => None,
        }
    }

    /// The route at position `k`: destination, preferred interface, own
    /// distance.
    pub fn route(&self, k: usize) -> (r: RouteChange)
        requires
            k < self@.entries.len(),
        ensures
            r.describes(self@.entries[k as int]),
    {
        RouteChange {
            addr: self.storage[k].addr,
            preferred: self.storage[k].preferred_neighbor,
            metric: self.storage[k].my_distance,
        }
    }

    /// Install the route to a host attached to interface `if_id`: that
    /// interface offers the distance zero. The host must not have a route
    /// yet.
    pub fn add_local_entry(&mut self, addr: HostAddr, if_id: InterfaceId)
        requires
            old(self)@.wf(),
            if_id@ < old(self)@.width,
            route_index(old(self)@.entries, addr) is None,
        ensures
            final(self)@.wf(),
            final(self)@ == old(self)@.offered(if_id@, addr, 0),
            final(self)@.entries == old(self)@.entries.push(
                RouteView::first_offer(addr, old(self)@.width, if_id@, 0),
            ),
    {
        let entry = RoutingTableEntry::first_offer(
            addr,
            self.num_interfaces,
            if_id,
            Metric::new_zero(),
        );
        self.storage.push(entry);
        proof {
            assert(self@.entries =~= old(self)@.entries.push(
                RouteView::first_offer(addr, old(self)@.width, if_id@, 0),
            ));
            lemma_table_offered_wf(old(self)@, if_id@, addr, 0);
        }
    }

    /// Take the offer by interface `nb_interface` of a route to `adv_addr`
    /// at distance `nb_metric`. Yields the preferred interface and the
    /// router's own distance where that distance changed or the
    /// destination is new.
    pub fn update_route(&mut self, nb_interface: InterfaceId, adv_addr: HostAddr, nb_metric: Metric) -> (r:
        Option<(InterfaceId, Metric)>)
        requires
            old(self)@.wf(),
            nb_interface@ < old(self)@.width,
        ensures
            final(self)@.wf(),
            final(self)@ == old(self)@.offered(nb_interface@, adv_addr, nb_metric@),
            match old(self)@.offer_result(nb_interface@, adv_addr, nb_metric@) {
                Some((preferred, distance)) => r is Some && r.unwrap().0@ == preferred
                    && r.unwrap().1@ == distance,
                None => r is None,
            },
    {
        let hop = nb_metric.hop_count();
        proof {
            lemma_table_offered_wf(old(self)@, nb_interface@, adv_addr, nb_metric@);
        }
        match self.find(&adv_addr) {
            None => {
                let entry = RoutingTableEntry::first_offer(
                    adv_addr,
                    self.num_interfaces,
                    nb_interface,
                    nb_metric,
                );
                let my_metric = entry.my_distance;
                self.storage.push(entry);
                proof {
                    assert(self@.entries =~= old(self)@.offered(
                        nb_interface@,
                        adv_addr,
                        nb_metric@,
                    ).entries);
                }
                Some((nb_interface, my_metric))
            },
            Some(k) => {
                proof {
                    assert(old(self)@.entries[k as int].wf(old(self)@.width));
                }
                let before = self.storage[k].my_distance;
                self.storage[k].offer(nb_interface, nb_metric);
                proof {
                    assert(self@.entries =~= old(self)@.offered(
                        nb_interface@,
                        adv_addr,
                        nb_metric@,
                    ).entries);
                }
                let after = self.storage[k].my_distance;
                if after.hop_count() != before.hop_count() {
                    Some((self.storage[k].preferred_neighbor, after))
                } else {
                    None
                }
            },
        }
    }

    /// The neighbor on interface `nb_interface` was lost: the interface
    /// offers infinity for every destination from now on. Yields, in the
    /// order of the table, the routes of which the other neighbors have to
    /// be told: those whose preferred interface changed and those that are
    /// out of reach.
    pub fn remove_entries_for_interface(&mut self, nb_interface: InterfaceId) -> (r: Vec<
        RouteChange,
    >)
        requires
            old(self)@.wf(),
            nb_interface@ < old(self)@.width,
        ensures
            final(self)@.wf(),
            final(self)@ == old(self)@.neighbor_lost(nb_interface@),
            r@.len() == lost_routes(old(self)@.entries, final(self)@.entries).len(),
            forall|j: int|
                0 <= j < r@.len() ==> (#[trigger] r@[j]).describes(
                    lost_routes(old(self)@.entries, final(self)@.entries)[j],
                ),
    {
        let mut changes: Vec<RouteChange> = Vec::new();
        let n = self.storage.len();
        let ghost before = self@.entries;
        let ghost goal = self@.neighbor_lost(nb_interface@).entries;
        let mut k: usize = 0;
        while k < n
            invariant
                k <= n,
                n == self.storage@.len(),
                before == old(self)@.entries,
                before.len() == n,
                goal == old(self)@.neighbor_lost(nb_interface@).entries,
                self.num_interfaces == old(self).num_interfaces,
                old(self)@.wf(),
                nb_interface@ < old(self)@.width,
                forall|j: int| 0 <= j < k ==> (#[trigger] self.storage@[j])@ == goal[j],
                forall|j: int| k <= j < n ==> (#[trigger] self.storage@[j])@ == before[j],
                changes@.len() == lost_routes(before.take(k as int), goal.take(k as int)).len(),
                forall|j: int|
                    0 <= j < changes@.len() ==> (#[trigger] changes@[j]).describes(
                        lost_routes(before.take(k as int), goal.take(k as int))[j],
                    ),
            decreases n - k,
        {
            proof {
                assert(before[k as int].wf(old(self)@.width));
                assert(before.take(k + 1).drop_last() =~= before.take(k as int));
                assert(goal.take(k + 1).drop_last() =~= goal.take(k as int));
            }
            let was = self.storage[k].preferred_neighbor;
            self.storage[k].offer(nb_interface, Metric::infinity());
            let now = self.storage[k].preferred_neighbor;
            let dist = self.storage[k].my_distance;
            if now.as_idx() != was.as_idx() || dist.is_infinity() {
                changes.push(RouteChange { addr: self.storage[k].addr, preferred: now, metric: dist });
            }
            k += 1;
        }
        proof {
            assert(before.take(n as int) =~= before);
            assert(goal.take(n as int) =~= goal);
            assert(self@.entries =~= goal);
            lemma_table_neighbor_lost_wf(old(self)@, nb_interface@);
        }
        changes
    }
}

} // verus!
