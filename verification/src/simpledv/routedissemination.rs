//! Route dissemination: what a router tells its neighbors when a route
//! changes, and what it does with what they tell it.
//!
//! A changed route is advertised on every interface that speaks the
//! protocol, is up and has a known neighbor; on the interface that the
//! route leads through, infinity is advertised in place of the router's
//! distance (poison reverse).

use crate::basicnet::nettraits::ControlRequest;
use crate::basicnet::types::InterfaceId;
use crate::simpledv::addr::HostAddr;
use crate::simpledv::metric::{infinity, Metric};
use crate::simpledv::neighbortable::NeighborTableEntry;
use crate::simpledv::packets::{Route, SimpleDVPacket, SimpleDVPacketType};
use crate::simpledv::routingtable::{
    lemma_route_index, lost_routes, route_index, RouteChange, RouteView,
};
use crate::simpledv::{Request, SimpleDiv};
use vstd::prelude::*;

verus! {

broadcast use {Metric::lemma_of, Metric::lemma_view_injective, InterfaceId::lemma_view_injective};

/// The Update that tells the neighbor on the interface of `e` that `addr`
/// is `hops` away.
pub open spec fn advert(e: NeighborTableEntry, addr: HostAddr, hops: nat) -> Request {
    ControlRequest::Send {
        interface: e.interface_id,
        packet: SimpleDVPacket::update(e.my_addr, e.other_addr.unwrap(), addr, Metric::of(hops)),
    }
}

/// The Updates that tell every active neighbor, in the order of the
/// interfaces, that `addr` is `hops` away; the neighbor on the interface
/// `preferred` is told infinity.
pub open spec fn adverts(
    nbrs: Seq<NeighborTableEntry>,
    addr: HostAddr,
    preferred: nat,
    hops: nat,
) -> Seq<Request>
    decreases nbrs.len(),
{
    if nbrs.len() == 0 {
        Seq::empty()
    } else {
        let rest = adverts(nbrs.drop_last(), addr, preferred, hops);
        let e = nbrs.last();
        if e.active() {
            rest.push(
                advert(
                    e,
                    addr,
                    if e.interface_id@ == preferred {
                        infinity()
                    } else {
                        hops
                    },
                ),
            )
        } else {
            rest
        }
    }
}

/// The Updates for each of the routes in `changed`, one route after the
/// other.
pub open spec fn adverts_all(nbrs: Seq<NeighborTableEntry>, changed: Seq<RouteView>) -> Seq<
    Request,
>
    decreases changed.len(),
{
    if changed.len() == 0 {
        Seq::empty()
    } else {
        adverts_all(nbrs, changed.drop_last()) + adverts(
            nbrs,
            changed.last().addr,
            changed.last().preferred,
            changed.last().my_distance,
        )
    }
}

/// The Updates that tell the neighbor on the interface of `e` of every
/// route, in the order of the table.
pub open spec fn introductions(e: NeighborTableEntry, routes: Seq<RouteView>) -> Seq<Request>
    decreases routes.len(),
{
    if routes.len() == 0 {
        Seq::empty()
    } else {
        introductions(e, routes.drop_last()).push(
            advert(e, routes.last().addr, routes.last().my_distance),
        )
    }
}

/// The request does not advertise a reachable route on the interface that
/// the route leads through.
pub open spec fn poisoned_one(routes: Seq<RouteView>, req: Request) -> bool {
    match req {
        ControlRequest::Send { interface, packet } => match packet.content {
            SimpleDVPacketType::Update(route) => match route_index(routes, route.addr) {
                Some(k) => routes[k].preferred == interface@ ==> route.metric@ >= infinity(),
                None => true,
            },
            SimpleDVPacketType::Hello => true,
        },
        _ => true,
    }
}

/// None of the requests advertises a reachable route on the interface
/// that the route leads through: the requests obey poison reverse.
pub open spec fn poisoned(routes: Seq<RouteView>, reqs: Seq<Request>) -> bool {
    forall|j: int| 0 <= j < reqs.len() ==> poisoned_one(routes, #[trigger] reqs[j])
}

/// Requests that carry no Update obey poison reverse.
pub proof fn lemma_no_update_poisoned(routes: Seq<RouteView>, reqs: Seq<Request>)
    requires
        forall|j: int|
            0 <= j < reqs.len() ==> match #[trigger] reqs[j] {
                ControlRequest::Send { interface, packet } => packet.content is Hello,
                _ => true,
            },
    ensures
        poisoned(routes, reqs),
{
}

/// Requests that each obey poison reverse still do when put in a row.
pub proof fn lemma_poisoned_concat(routes: Seq<RouteView>, a: Seq<Request>, b: Seq<Request>)
    requires
        poisoned(routes, a),
        poisoned(routes, b),
    ensures
        poisoned(routes, a + b),
{
    assert forall|j: int| 0 <= j < (a + b).len() implies poisoned_one(
        routes,
        #[trigger] (a + b)[j],
    ) by {
        if j < a.len() {
            assert((a + b)[j] == a[j]);
        } else {
            assert((a + b)[j] == b[j - a.len()]);
        }
    }
}

/// The Updates for a route obey poison reverse where `preferred` is the
/// interface that the table prefers for it.
pub proof fn lemma_adverts_poisoned(
    routes: Seq<RouteView>,
    nbrs: Seq<NeighborTableEntry>,
    addr: HostAddr,
    preferred: nat,
    hops: nat,
)
    requires
        match route_index(routes, addr) {
            Some(k) => routes[k].preferred == preferred,
            None => true,
        },
    ensures
        poisoned(routes, adverts(nbrs, addr, preferred, hops)),
    decreases nbrs.len(),
{
    if nbrs.len() > 0 {
        lemma_adverts_poisoned(routes, nbrs.drop_last(), addr, preferred, hops);
        let rest = adverts(nbrs.drop_last(), addr, preferred, hops);
        let all = adverts(nbrs, addr, preferred, hops);
        assert forall|j: int| 0 <= j < all.len() implies poisoned_one(routes, #[trigger] all[j]) by {
            if j < rest.len() {
                assert(all[j] == rest[j]);
            }
        }
    }
}

/// The Updates for routes that all stand in the table obey poison
/// reverse.
pub proof fn lemma_adverts_all_poisoned(
    routes: Seq<RouteView>,
    nbrs: Seq<NeighborTableEntry>,
    changed: Seq<RouteView>,
)
    requires
        forall|j: int|
            0 <= j < changed.len() ==> match route_index(routes, (#[trigger] changed[j]).addr) {
                Some(k) => routes[k].preferred == changed[j].preferred,
                None => true,
            },
    ensures
        poisoned(routes, adverts_all(nbrs, changed)),
    decreases changed.len(),
{
    if changed.len() > 0 {
        let front = changed.drop_last();
        assert forall|j: int| 0 <= j < front.len() implies match route_index(
            routes,
            (#[trigger] front[j]).addr,
        ) {
            Some(k) => routes[k].preferred == front[j].preferred,
            None => true,
        } by {
            assert(front[j] == changed[j]);
        }
        lemma_adverts_all_poisoned(routes, nbrs, front);
        let last = changed[changed.len() - 1];
        lemma_adverts_poisoned(routes, nbrs, last.addr, last.preferred, last.my_distance);
        lemma_poisoned_concat(
            routes,
            adverts_all(nbrs, front),
            adverts(nbrs, last.addr, last.preferred, last.my_distance),
        );
    }
}

/// Every entry that `lost_routes` yields stands in `after`.
pub proof fn lemma_lost_routes_within(before: Seq<RouteView>, after: Seq<RouteView>)
    requires
        before.len() == after.len(),
    ensures
        forall|j: int|
            0 <= j < lost_routes(before, after).len() ==> after.contains(
                #[trigger] lost_routes(before, after)[j],
            ),
    decreases after.len(),
{
    if after.len() > 0 {
        lemma_lost_routes_within(before.drop_last(), after.drop_last());
        let rest = lost_routes(before.drop_last(), after.drop_last());
        let all = lost_routes(before, after);
        assert forall|j: int| 0 <= j < all.len() implies after.contains(#[trigger] all[j]) by {
            if j < rest.len() {
                assert(all[j] == rest[j]);
                assert(after.drop_last().contains(rest[j]));
                let w = choose|w: int| 0 <= w < after.drop_last().len() && after.drop_last()[w] == rest[j];
                assert(after[w] == rest[j]);
            } else {
                assert(all[j] == after[after.len() - 1]);
            }
        }
    }
}

/// The Updates to a new neighbor obey poison reverse where the interface
/// of that neighbor has offered nothing so far.
pub proof fn lemma_introductions_poisoned(
    routes: Seq<RouteView>,
    width: nat,
    e: NeighborTableEntry,
    upto: int,
)
    requires
        0 <= upto <= routes.len(),
        crate::simpledv::routingtable::distinct_addrs(routes),
        forall|k: int| 0 <= k < routes.len() ==> (#[trigger] routes[k]).wf(width),
        e.interface_id@ < width,
        forall|k: int|
            0 <= k < routes.len() ==> (#[trigger] routes[k]).distances[e.interface_id@ as int]
                == infinity(),
    ensures
        poisoned(routes, introductions(e, routes.take(upto))),
    decreases upto,
{
    if upto > 0 {
        lemma_introductions_poisoned(routes, width, e, upto - 1);
        assert(routes.take(upto).drop_last() =~= routes.take(upto - 1));
        let rest = introductions(e, routes.take(upto - 1));
        let all = introductions(e, routes.take(upto));
        let r = routes[upto - 1];
        assert(routes.take(upto).last() == r);
        crate::simpledv::routingtable::lemma_route_index_unique(routes, upto - 1);
        assert(r.wf(width));
        assert forall|j: int| 0 <= j < all.len() implies poisoned_one(routes, #[trigger] all[j]) by {
            if j < rest.len() {
                assert(all[j] == rest[j]);
            } else {
                assert(all[j] == advert(e, r.addr, r.my_distance));
                if r.preferred == e.interface_id@ {
                    assert(r.distances[r.preferred as int] == infinity());
                }
            }
        }
    }
}

/// What the receipt of an Update does: from an interface that is not
/// active it aborts the run; otherwise the offer is taken into the routing
/// table, and where the router's own distance changed, the neighbors are
/// told.
pub open spec fn update_received(
    pre: &SimpleDiv,
    post: &SimpleDiv,
    interface_id: InterfaceId,
    route: Route,
    out: Seq<Request>,
) -> bool {
    &&& post.neighbors() == pre.neighbors()
    &&& if !pre.neighbors()[interface_id@ as int].active() {
        post.routes() == pre.routes() && out == seq![Request::Stop]
    } else {
        &&& post.routes() == pre.routes().offered(interface_id@, route.addr, route.metric@)
        &&& out == match pre.routes().offer_result(interface_id@, route.addr, route.metric@) {
            Some((preferred, distance)) => adverts(pre.neighbors(), route.addr, preferred, distance),
            None => Seq::empty(),
        }
    }
}

impl SimpleDiv {
    pub(crate) fn set_num_interfaces(&mut self, num_interfaces: usize)
        requires
            old(self).routing_table@.entries.len() == 0,
        ensures
            final(self).routing_table@.entries.len() == 0,
            final(self).routing_table@.width == num_interfaces,
            final(self).routing_table@.wf(),
            final(self).neighbor_table == old(self).neighbor_table,
            final(self).cfg() == old(self).cfg(),
            final(self).router_id == old(self).router_id,
            final(self).started == old(self).started,
    {
        self.routing_table.set_num_interfaces(num_interfaces);
    }

    /// Install the route to the host on the interface `interface_id`.
    pub(crate) fn add_local_route(&mut self, interface_id: InterfaceId)
        requires
            old(self).routing_table@.wf(),
            interface_id@ < old(self).routing_table@.width,
            old(self).cfg().has(interface_id),
        ensures
            final(self).routing_table@.wf(),
            final(self).routing_table@ == old(self).routing_table@.offered(
                interface_id@,
                old(self).cfg().addr_of(interface_id),
                0,
            ),
            final(self).neighbor_table == old(self).neighbor_table,
            final(self).cfg() == old(self).cfg(),
            final(self).router_id == old(self).router_id,
            final(self).started == old(self).started,
    {
        let host_addr = self.config.get_config(interface_id).advertise_addr;
        if self.routing_table.contains(&host_addr) {
            let _ = self.routing_table.update_route(interface_id, host_addr, Metric::new_zero());
        } else {
            self.routing_table.add_local_entry(host_addr, interface_id);
        }
    }

    /// The Updates that tell every active neighbor of `change`.
    pub(crate) fn advertise(&self, change: &RouteChange) -> (out: Vec<Request>)
        ensures
            out@ == adverts(self.neighbors(), change.addr, change.preferred@, change.metric@),
    {
        let mut out: Vec<Request> = Vec::new();
        let n = self.neighbor_table.len();
        let hop = change.metric.hop_count();
        let mut i: usize = 0;
        while i < n
            invariant
                i <= n,
                n == self.neighbor_table@.len(),
                hop == change.metric@,
                hop <= infinity(),
                out@ == adverts(
                    self.neighbor_table@.take(i as int),
                    change.addr,
                    change.preferred@,
                    change.metric@,
                ),
            decreases n - i,
        {
            proof {
                assert(self.neighbor_table@.take(i + 1).drop_last() =~= self.neighbor_table@.take(
                    i as int,
                ));
            }
            let entry = self.neighbor_table.entry(InterfaceId::from(i));
            if entry.is_active_simpledv_interface() {
                let upd_metric = if entry.interface_id == change.preferred {
                    Metric::infinity()
                } else {
                    change.metric
                };
                let update = SimpleDVPacket::new_update(
                    &entry.my_addr,
                    entry.other_addr.unwrap(),
                    &change.addr,
                    upd_metric,
                );
                out.push(ControlRequest::Send { interface: entry.interface_id, packet: update });
            }
            i += 1;
        }
        proof {
            assert(self.neighbor_table@.take(n as int) =~= self.neighbor_table@);
        }
        out
    }

    /// A neighbor became known on `interface_id`: it is told of every
    /// route.
    pub(crate) fn on_new_neighbor(&self, interface_id: InterfaceId) -> (out: Vec<Request>)
        requires
            self.wf(),
            interface_id@ < self.neighbors().len(),
            self.neighbors()[interface_id@ as int].other_addr is Some,
        ensures
            out@ == introductions(self.neighbors()[interface_id@ as int], self.routes().entries),
    {
        let mut out: Vec<Request> = Vec::new();
        let entry = self.neighbor_table.entry(interface_id);
        let n = self.routing_table.len();
        let mut k: usize = 0;
        while k < n
            invariant
                k <= n,
                n == self.routing_table@.entries.len(),
                self.routing_table@.wf(),
                *entry == self.neighbor_table@[interface_id@ as int],
                entry.other_addr is Some,
                out@ == introductions(*entry, self.routing_table@.entries.take(k as int)),
            decreases n - k,
        {
            proof {
                assert(self.routing_table@.entries.take(k + 1).drop_last()
                    =~= self.routing_table@.entries.take(k as int));
            }
            let route = self.routing_table.route(k);
            let hop = route.metric.hop_count();
            let update = SimpleDVPacket::new_update(
                &entry.my_addr,
                entry.other_addr.unwrap(),
                &route.addr,
                route.metric,
            );
            out.push(ControlRequest::Send { interface: entry.interface_id, packet: update });
            k += 1;
        }
        proof {
            assert(self.routing_table@.entries.take(n as int) =~= self.routing_table@.entries);
        }
        out
    }

    /// The neighbor on `interface_id` was lost, or the interface went
    /// down: the interface offers nothing any more. The other neighbors
    /// are told of every route whose preferred interface changed or that
    /// is out of reach.
    pub(crate) fn on_neighbor_down(&mut self, interface_id: InterfaceId) -> (out: Vec<Request>)
        requires
            old(self).routing_table@.wf(),
            interface_id@ < old(self).routing_table@.width,
        ensures
            final(self).routing_table@.wf(),
            final(self).routing_table@ == old(self).routing_table@.neighbor_lost(interface_id@),
            out@ == adverts_all(
                old(self).neighbors(),
                lost_routes(old(self).routing_table@.entries, final(self).routing_table@.entries),
            ),
            poisoned(final(self).routing_table@.entries, out@),
            final(self).neighbor_table == old(self).neighbor_table,
            final(self).cfg() == old(self).cfg(),
            final(self).router_id == old(self).router_id,
            final(self).started == old(self).started,
    {
        let changes = self.routing_table.remove_entries_for_interface(interface_id);
        let ghost lost = lost_routes(old(self).routing_table@.entries, self.routing_table@.entries);
        let mut out: Vec<Request> = Vec::new();
        let mut j: usize = 0;
        while j < changes.len()
            invariant
                j <= changes@.len(),
                changes@.len() == lost.len(),
                forall|w: int| 0 <= w < changes@.len() ==> (#[trigger] changes@[w]).describes(lost[w]),
                self.neighbor_table == old(self).neighbor_table,
                out@ == adverts_all(self.neighbor_table@, lost.take(j as int)),
            decreases changes@.len() - j,
        {
            proof {
                assert(lost.take(j + 1).drop_last() =~= lost.take(j as int));
                assert(changes@[j as int].describes(lost[j as int]));
            }
            let mut more = self.advertise(&changes[j]);
            out.append(&mut more);
            j += 1;
        }
        proof {
            assert(lost.take(lost.len() as int) =~= lost);
            let after = self.routing_table@.entries;
            lemma_lost_routes_within(old(self).routing_table@.entries, after);
            assert forall|w: int| 0 <= w < lost.len() implies match route_index(
                after,
                (#[trigger] lost[w]).addr,
            ) {
                Some(k) => after[k].preferred == lost[w].preferred,
                None => true,
            } by {
                assert(after.contains(lost[w]));
                let p = choose|p: int| 0 <= p < after.len() && after[p] == lost[w];
                crate::simpledv::routingtable::lemma_route_index_unique(after, p);
            }
            lemma_adverts_all_poisoned(after, self.neighbor_table@, lost);
        }
        out
    }

    /// An Update arrived on `interface_id`.
    pub(crate) fn receive_update(&mut self, interface_id: InterfaceId, route: &Route) -> (out: Vec<
        Request,
    >)
        requires
            old(self).wf(),
            interface_id@ < old(self).neighbors().len(),
        ensures
            final(self).wf(),
            final(self).is_started() == old(self).is_started(),
            final(self).cfg() == old(self).cfg(),
            final(self).router() == old(self).router(),
            update_received(old(self), final(self), interface_id, *route, out@),
            poisoned(final(self).routes().entries, out@),
    {
        // an Update is taken only from a neighbor that is known and up
        if !self.neighbor_table.entry(interface_id).is_active_simpledv_interface() {
            let mut out: Vec<Request> = Vec::new();
            out.push(ControlRequest::Stop);
            proof {
                lemma_no_update_poisoned(self.routes().entries, out@);
            }
            return out;
        }
        let hop = route.metric.hop_count();
        let upd_res = self.routing_table.update_route(interface_id, route.addr, route.metric);
        proof {
            let before = old(self).routes();
            let after = self.routes();
            lemma_route_index(before.entries, route.addr);
            // the interface has a neighbor: what it offers binds nobody else
            assert forall|i: int, k: int|
                0 <= i < self.neighbors().len() && 0 <= k < after.entries.len() && (
                #[trigger] self.neighbors()[i]).peer() && self.neighbors()[i].other_addr is None implies (
            #[trigger] after.entries[k]).distances[i] == infinity() by {
                if k < before.entries.len() {
                    assert(before.entries[k].distances[i] == infinity());
                }
            }
        }
        match upd_res {
            None => {
                let out: Vec<Request> = Vec::new();
                proof {
                    lemma_no_update_poisoned(self.routes().entries, out@);
                }
                out
            },
            Some((preferred_nb, my_new_metric)) => {
                let change = RouteChange {
                    addr: route.addr,
                    preferred: preferred_nb,
                    metric: my_new_metric,
                };
                let out = self.advertise(&change);
                proof {
                    let before = old(self).routes();
                    let after = self.routes();
                    lemma_route_index(before.entries, route.addr);
                    lemma_route_index(after.entries, route.addr);
                    match route_index(before.entries, route.addr) {
                        Some(k) => {
                            crate::simpledv::routingtable::lemma_route_index_unique(after.entries, k);
                        },
                        None => {
                            crate::simpledv::routingtable::lemma_route_index_unique(
                                after.entries,
                                before.entries.len() as int,
                            );
                        },
                    }
                    lemma_adverts_poisoned(
                        after.entries,
                        self.neighbors(),
                        route.addr,
                        preferred_nb@,
                        my_new_metric@,
                    );
                }
                out
            },
        }
    }
}

} // verus!
