//! SimpleDV, a distance-vector routing protocol: neighbors are discovered
//! by Hellos and given up after a hold time, routes are spread by Updates,
//! and a route is never advertised as reachable to the neighbor that it
//! leads through.

pub mod addr;
pub mod builder;
pub mod config;
pub mod constants;
pub mod metric;
pub mod neighbordiscovery;
pub mod neighbortable;
pub mod packets;
pub mod routedissemination;
pub mod router;
pub mod routingtable;
pub mod timer;

use crate::basicnet::nettraits::{ControlPlane, ControlRequest};
use crate::basicnet::types::{InterfaceId, RouterId};
use crate::simpledv::addr::InterfaceAddress;
use crate::simpledv::config::Config;
use crate::simpledv::metric::infinity;
use crate::simpledv::neighbortable::{in_interface_order, InterfaceType, NeighborTable, NeighborTableEntry};
use crate::simpledv::packets::{SimpleDVPacket, SimpleDVPacketType};
use crate::simpledv::routedissemination::poisoned;
use crate::simpledv::routingtable::{RoutingTable, RoutingTableView};
use crate::simpledv::timer::SimpleDVTimer;
use crate::simtime::SimTime;
use vstd::prelude::*;

verus! {

/// What the protocol asks of its router.
pub type Request = ControlRequest<SimpleDVPacket, SimpleDVTimer>;

/// The protocol's state in one router.
#[derive(Debug)]
pub struct SimpleDiv {
    pub(crate) router_id: RouterId,
    pub(crate) config: Config,
    pub(crate) neighbor_table: NeighborTable,
    pub(crate) routing_table: RoutingTable,
    pub(crate) started: bool,
}

impl SimpleDiv {
    pub closed spec fn router(&self) -> RouterId {
        self.router_id
    }

    /// The neighbor table, by interface number.
    pub closed spec fn neighbors(&self) -> Seq<NeighborTableEntry> {
        self.neighbor_table@
    }

    /// The routing table.
    pub closed spec fn routes(&self) -> RoutingTableView {
        self.routing_table@
    }

    pub closed spec fn is_started(&self) -> bool {
        self.started
    }

    /// The configuration.
    pub closed spec fn cfg(&self) -> Config {
        self.config
    }

    /// The protocol's invariant.
    ///
    /// The tables are sound. Until the protocol is started there is no
    /// route and no interface is up; from then on the routing table has
    /// one column per interface. Every interface to a host is configured.
    /// An interface that speaks the protocol and has no known neighbor
    /// offers no route.
    pub open spec fn wf(&self) -> bool {
        let nbrs = self.neighbors();
        let routes = self.routes();
        &&& in_interface_order(nbrs)
        &&& forall|i: int|
            0 <= i < nbrs.len() ==> (#[trigger] nbrs[i]).my_addr == (InterfaceAddress {
                router_id: self.router(),
                interface_id: nbrs[i].interface_id,
            })
        &&& routes.wf()
        &&& self.is_started() ==> routes.width == nbrs.len()
        &&& !self.is_started() ==> routes.entries.len() == 0 && forall|i: int|
            0 <= i < nbrs.len() ==> !(#[trigger] nbrs[i]).is_up
        &&& forall|i: int|
            0 <= i < nbrs.len() && (#[trigger] nbrs[i]).interface_type == InterfaceType::EndSystem
                ==> self.cfg().has(nbrs[i].interface_id)
        &&& forall|i: int, k: int|
            0 <= i < nbrs.len() && 0 <= k < routes.entries.len() && (#[trigger] nbrs[i]).peer()
                && nbrs[i].other_addr is None ==> (#[trigger] routes.entries[k]).distances[i]
                == infinity()
    }

    /// What a new interface does: it gets the next entry of the neighbor
    /// table. The interface is attached to a host where the configuration
    /// says so, and to a router that speaks the protocol otherwise.
    pub open spec fn interface_added(
        pre: &SimpleDiv,
        post: &SimpleDiv,
        interface_id: InterfaceId,
    ) -> bool {
        &&& !post.is_started()
        &&& post.cfg() == pre.cfg()
        &&& post.router() == pre.router()
        &&& post.routes() == pre.routes()
        &&& post.neighbors() == pre.neighbors().push(
            NeighborTableEntry::fresh(
                pre.router(),
                interface_id,
                if pre.cfg().has(interface_id) {
                    InterfaceType::EndSystem
                } else {
                    InterfaceType::SimpleDV
                },
            ),
        )
    }

    /// What the start does: the routing table gets one column per
    /// interface. There are no routes yet.
    pub open spec fn started_from(pre: &SimpleDiv, post: &SimpleDiv) -> bool {
        &&& post.is_started()
        &&& post.cfg() == pre.cfg()
        &&& post.router() == pre.router()
        &&& post.neighbors() == pre.neighbors()
        &&& post.routes().entries.len() == 0
        &&& post.routes().width == pre.neighbors().len()
    }

    /// What an interface that comes up does. The interface is marked as
    /// up. An interface to a host installs the route to that host, at
    /// distance zero on that interface. An interface to a router sends a
    /// Hello and asks for the timer of the next one.
    pub open spec fn came_up(
        pre: &SimpleDiv,
        post: &SimpleDiv,
        interface_id: InterfaceId,
        out: Seq<Request>,
    ) -> bool {
        let e = pre.neighbors()[interface_id@ as int];
        &&& post.cfg() == pre.cfg()
        &&& post.router() == pre.router()
        &&& post.neighbors() == pre.neighbors().update(interface_id@ as int, e.raised())
        &&& if e.peer() {
            post.routes() == pre.routes() && out == neighbordiscovery::greeting(e)
        } else {
            out.len() == 0 && post.routes() == pre.routes().offered(
                interface_id@,
                pre.cfg().addr_of(interface_id),
                0,
            )
        }
    }

    /// What an interface that goes down does. The interface is marked as
    /// down and its neighbor forgotten. Where a neighbor was known, or the
    /// interface leads to a host, the routes that the interface offered
    /// are withdrawn and the other neighbors are told.
    pub open spec fn went_down(
        pre: &SimpleDiv,
        post: &SimpleDiv,
        interface_id: InterfaceId,
        out: Seq<Request>,
    ) -> bool {
        let e = pre.neighbors()[interface_id@ as int];
        &&& post.cfg() == pre.cfg()
        &&& post.router() == pre.router()
        &&& post.neighbors() == pre.neighbors().update(interface_id@ as int, e.lowered())
        &&& if e.peer() && e.other_addr is None {
            post.routes() == pre.routes() && out.len() == 0
        } else {
            post.routes() == pre.routes().neighbor_lost(interface_id@) && out
                == routedissemination::adverts_all(
                post.neighbors(),
                routingtable::lost_routes(pre.routes().entries, post.routes().entries),
            )
        }
    }

    /// What the receipt of a packet does: a Hello goes to neighbor
    /// discovery, an Update to route dissemination.
    pub open spec fn packet_received(
        pre: &SimpleDiv,
        post: &SimpleDiv,
        interface: InterfaceId,
        packet: SimpleDVPacket,
        now: SimTime,
        out: Seq<Request>,
    ) -> bool {
        &&& post.cfg() == pre.cfg()
        &&& post.router() == pre.router()
        &&& match packet.content {
            SimpleDVPacketType::Hello => neighbordiscovery::hello_received(
                pre,
                post,
                interface,
                packet.source,
                now,
                out,
            ),
            SimpleDVPacketType::Update(route) => routedissemination::update_received(
                pre,
                post,
                interface,
                route,
                out,
            ),
        }
    }

    /// What a timer does. A timer for an interface that does not exist
    /// aborts the run.
    pub open spec fn timer_fired(
        pre: &SimpleDiv,
        post: &SimpleDiv,
        ev: SimpleDVTimer,
        now: SimTime,
        out: Seq<Request>,
    ) -> bool {
        &&& post.cfg() == pre.cfg()
        &&& post.router() == pre.router()
        &&& match ev {
            SimpleDVTimer::Hello(t) => if t.interface_id@ < pre.neighbors().len() {
                neighbordiscovery::hello_timed_out(pre, post, t, out)
            } else {
                out == seq![Request::Stop] && post.neighbors() == pre.neighbors() && post.routes()
                    == pre.routes()
            },
            SimpleDVTimer::Hold(t) => if t.interface_id@ < pre.neighbors().len() {
                neighbordiscovery::hold_timed_out(pre, post, t, now, out)
            } else {
                out == seq![Request::Stop] && post.neighbors() == pre.neighbors() && post.routes()
                    == pre.routes()
            },
        }
    }

    /// `states` are the states that the protocol went through while the
    /// interfaces `ids` came up one after the other, and `outs` is what it
    /// asked for each time.
    pub open spec fn up_trace(
        ids: Seq<InterfaceId>,
        states: Seq<SimpleDiv>,
        outs: Seq<Seq<Request>>,
    ) -> bool {
        &&& states.len() == ids.len() + 1
        &&& outs.len() == ids.len()
        &&& forall|k: int|
            0 <= k < ids.len() ==> SimpleDiv::came_up(
                #[trigger] &states[k],
                &states[k + 1],
                ids[k],
                outs[k],
            )
    }

    /// The protocol `pre` was started, then the interfaces `ids` came up
    /// one after the other; the protocol asked for `out` in all and is
    /// `post` since.
    pub open spec fn brought_up(
        ids: Seq<InterfaceId>,
        pre: &SimpleDiv,
        post: &SimpleDiv,
        out: Seq<Request>,
    ) -> bool {
        exists|states: Seq<SimpleDiv>, outs: Seq<Seq<Request>>|
            #[trigger] SimpleDiv::up_trace(ids, states, outs) && SimpleDiv::started_from(
                pre,
                &states[0],
            ) && states[ids.len() as int] == *post && outs.flatten() == out
    }

    /// The neighbor table.
    pub fn neighbor_table(&self) -> (r: &NeighborTable)
        ensures
            r@ == self.neighbors(),
    {
        &self.neighbor_table
    }

    /// The routing table.
    pub fn routing_table(&self) -> (r: &RoutingTable)
        ensures
            r@ == self.routes(),
    {
        &self.routing_table
    }

    /// The configuration.
    pub fn config(&self) -> (r: &Config)
        ensures
            *r == self.cfg(),
    {
        &self.config
    }

    /// Configure the router. This is done before any interface is added.
    pub fn set_config(&mut self, config: Config)
        requires
            old(self).wf(),
            old(self).neighbors().len() == 0,
        ensures
            final(self).wf(),
            final(self).cfg() == config,
            final(self).neighbors() == old(self).neighbors(),
            final(self).routes() == old(self).routes(),
            final(self).router() == old(self).router(),
            final(self).is_started() == old(self).is_started(),
    {
        self.config = config;
    }

    /// Whether the protocol has been started.
    pub fn has_started(&self) -> (r: bool)
        ensures
            r == self.is_started(),
    {
        self.started
    }

    pub fn router_id(&self) -> (r: RouterId)
        ensures
            r == self.router(),
    {
        self.router_id
    }
}

impl ControlPlane for SimpleDiv {
    type Packet = SimpleDVPacket;

    type Timer = SimpleDVTimer;

    open spec fn inv(&self) -> bool {
        self.wf()
    }

    open spec fn interface_count(&self) -> nat {
        self.neighbors().len()
    }

    open spec fn started(&self) -> bool {
        self.is_started()
    }

    /// The protocol runs under the router's identifier. It has no
    /// configuration, no interfaces and no routes yet.
    open spec fn made_for(made: &Self, router_id: RouterId) -> bool {
        &&& made.router() == router_id
        &&& made.cfg()@.len() == 0
        &&& made.neighbors().len() == 0
        &&& made.routes().entries.len() == 0
    }

    open spec fn add_interface_effect(pre: &Self, post: &Self, interface: InterfaceId) -> bool {
        SimpleDiv::interface_added(pre, post, interface)
    }

    open spec fn start_effect(pre: &Self, post: &Self) -> bool {
        SimpleDiv::started_from(pre, post)
    }

    /// Nothing changes.
    open spec fn terminate_effect(pre: &Self, post: &Self) -> bool {
        *post == *pre
    }

    open spec fn interface_up_effect(
        pre: &Self,
        post: &Self,
        interface_id: InterfaceId,
        out: Seq<Request>,
    ) -> bool {
        SimpleDiv::came_up(pre, post, interface_id, out)
    }

    open spec fn interface_down_effect(
        pre: &Self,
        post: &Self,
        interface_id: InterfaceId,
        out: Seq<Request>,
    ) -> bool {
        SimpleDiv::went_down(pre, post, interface_id, out)
    }

    open spec fn packet_effect(
        pre: &Self,
        post: &Self,
        if_id: InterfaceId,
        packet: SimpleDVPacket,
        now: SimTime,
        out: Seq<Request>,
    ) -> bool {
        SimpleDiv::packet_received(pre, post, if_id, packet, now, out)
    }

    open spec fn timeout_effect(
        pre: &Self,
        post: &Self,
        ev: SimpleDVTimer,
        now: SimTime,
        out: Seq<Request>,
    ) -> bool {
        SimpleDiv::timer_fired(pre, post, ev, now, out)
    }

    fn new(router_id: RouterId) -> (r: Self) {
        SimpleDiv {
            router_id,
            config: Config::new(),
            neighbor_table: NeighborTable::new(),
            routing_table: RoutingTable::new(),
            started: false,
        }
    }

    /// The interface is attached to a host where the configuration says
    /// so, and to a router that speaks the protocol otherwise.
    fn add_interface(&mut self, interface_id: InterfaceId) {
        SimpleDiv::add_interface(self, interface_id);
    }

    fn start(&mut self) {
        let n = self.neighbor_table.len();
        self.set_num_interfaces(n);
        self.started = true;
    }

    /// An interface to a host installs the route to that host, at distance
    /// zero on that interface. An interface to a router sends a Hello and
    /// asks for the timer of the next one.
    fn on_interface_up(&mut self, interface_id: InterfaceId) -> (r: Vec<Request>)
    {
        let mut entry = *self.neighbor_table.entry(interface_id);
        entry.up();
        self.neighbor_table.set_entry(interface_id, entry);
        proof {
            InterfaceId::lemma_view_injective(entry.interface_id, interface_id);
            self.lemma_entry_replaced(old(self), interface_id@ as int);
            assert(old(self).neighbors()[interface_id@ as int].peer() && old(self).neighbors()[interface_id@ as int].other_addr is None ==> forall|k: int|
                0 <= k < self.routes().entries.len() ==> (
                #[trigger] self.routes().entries[k]).distances[interface_id@ as int] == infinity());
        }
        if entry.is_simpledv_interface() {
            self.on_simpledv_interface_up(interface_id)
        } else {
            let ghost before = self.routes();
            self.add_local_route(interface_id);
            proof {
                let after = self.routes();
                let addr = self.cfg().addr_of(interface_id);
                routingtable::lemma_route_index(before.entries, addr);
                assert forall|i: int, k: int|
                    0 <= i < self.neighbors().len() && 0 <= k < after.entries.len() && (
                    #[trigger] self.neighbors()[i]).peer() && self.neighbors()[i].other_addr is None implies (
                #[trigger] after.entries[k]).distances[i] == infinity() by {
                    if k < before.entries.len() {
                        assert(before.entries[k].distances[i] == infinity());
                    }
                }
            }
            Vec::new()
        }
    }

    /// The interface is marked as down and its neighbor forgotten. Where a
    /// neighbor was known, or the interface leads to a host, the routes
    /// that the interface offered are withdrawn and the other neighbors
    /// are told.
    fn on_interface_down(&mut self, interface_id: InterfaceId) -> (r: Vec<Request>)
        ensures
            poisoned(final(self).routes().entries, r@),
    {
        let peer = self.neighbor_table.entry(interface_id).is_simpledv_interface();
        if peer {
            self.on_simpledv_interface_down(interface_id)
        } else {
            let mut entry = *self.neighbor_table.entry(interface_id);
            entry.set_interface_down();
            self.neighbor_table.set_entry(interface_id, entry);
            self.on_neighbor_down(interface_id)
        }
    }

    /// A Hello goes to neighbor discovery, an Update to route
    /// dissemination.
    fn receive_packet(&mut self, interface: InterfaceId, packet: &SimpleDVPacket, now: SimTime) -> (r:
        Vec<Request>)
        ensures
            poisoned(final(self).routes().entries, r@),
    {
        match &packet.content {
            SimpleDVPacketType::Hello => self.receive_hello(interface, packet.source, now),
            SimpleDVPacketType::Update(route) => self.receive_update(interface, route),
        }
    }

    /// A timer for an interface that does not exist aborts the run.
    fn on_timeout(&mut self, ev: SimpleDVTimer, now: SimTime) -> (r: Vec<Request>)
        ensures
            poisoned(final(self).routes().entries, r@),
    {
        match ev {
            SimpleDVTimer::Hello(t) => {
                if t.interface_id.as_idx() < self.neighbor_table.len() {
                    let r = self.timeout_hello(t);
                    proof {
                        routedissemination::lemma_no_update_poisoned(self.routes().entries, r@);
                    }
                    r
                } else {
                    let mut out: Vec<Request> = Vec::new();
                    out.push(ControlRequest::Stop);
                    proof {
                        routedissemination::lemma_no_update_poisoned(self.routes().entries, out@);
                    }
                    out
                }
            },
            SimpleDVTimer::Hold(t) => {
                if t.interface_id.as_idx() < self.neighbor_table.len() {
                    self.timeout_hold(t, now)
                } else {
                    let mut out: Vec<Request> = Vec::new();
                    out.push(ControlRequest::Stop);
                    proof {
                        routedissemination::lemma_no_update_poisoned(self.routes().entries, out@);
                    }
                    out
                }
            },
        }
    }

    fn terminate(&mut self) {
    }
}

} // verus!
