//! Neighbor discovery: Hellos tell a router who is at the other end of a
//! link, and a hold timer tells it when that neighbor has fallen silent.

use crate::basicnet::nettraits::ControlRequest;
use crate::basicnet::types::InterfaceId;
use crate::simpledv::addr::InterfaceAddress;
use crate::simpledv::constants::{hello_interval, hello_interval_nanos, hold_time, hold_time_nanos};
use crate::simpledv::metric::{infinity, Metric};
use crate::simpledv::neighbortable::{InterfaceType, NeighborTableEntry};
use crate::simpledv::packets::SimpleDVPacket;
use crate::simpledv::routedissemination::{
    adverts_all, introductions, lemma_introductions_poisoned, lemma_no_update_poisoned,
    lemma_poisoned_concat, poisoned,
};
use crate::simpledv::routingtable::lost_routes;
use crate::simpledv::timer::{HelloTimer, NeighborHoldTimer, SimpleDVTimer};
use crate::simpledv::{Request, SimpleDiv};
use crate::simtime::{clamp_nanos, SimTime, SimTimeDelta};
use vstd::prelude::*;

verus! {

broadcast use {
    Metric::lemma_of,
    Metric::lemma_view_injective,
    InterfaceId::lemma_view_injective,
    SimTimeDelta::lemma_of_nanos,
    SimTimeDelta::lemma_view_injective,
    SimTime::lemma_of_nanos,
    SimTime::lemma_view_injective,
};

/// A Hello on the interface of `e`, and the timer for the next one.
pub open spec fn greeting(e: NeighborTableEntry) -> Seq<Request> {
    seq![
        ControlRequest::Send { interface: e.interface_id, packet: SimpleDVPacket::hello(e.my_addr) },
        ControlRequest::Timer {
            delay: SimTimeDelta::of_nanos(hello_interval_nanos()),
            timer: SimpleDVTimer::Hello(HelloTimer { interface_id: e.interface_id }),
        },
    ]
}

/// The request for a hold timer on `interface_id` that fires after
/// `nanos`.
pub open spec fn hold_request(interface_id: InterfaceId, nanos: nat) -> Request {
    ControlRequest::Timer {
        delay: SimTimeDelta::of_nanos(nanos),
        timer: SimpleDVTimer::Hold(NeighborHoldTimer { interface_id }),
    }
}

/// What the receipt of a Hello from `addr` at `now` does.
///
/// On an interface that does not speak the protocol it aborts the run, and
/// so does a Hello from another address than that of the known neighbor.
/// The first Hello makes the neighbor known, asks for the hold timer and
/// tells the neighbor of every route; a later one refreshes the time of
/// the last Hello.
pub open spec fn hello_received(
    pre: &SimpleDiv,
    post: &SimpleDiv,
    if_id: InterfaceId,
    addr: InterfaceAddress,
    now: SimTime,
    out: Seq<Request>,
) -> bool {
    let e = pre.neighbors()[if_id@ as int];
    &&& post.routes() == pre.routes()
    &&& if !e.peer() {
        post.neighbors() == pre.neighbors() && out == seq![Request::Stop]
    } else {
        match e.other_addr {
            None => {
                &&& post.neighbors() == pre.neighbors().update(if_id@ as int, e.heard(addr, now))
                &&& out == seq![hold_request(if_id, hold_time_nanos())] + introductions(
                    e.heard(addr, now),
                    pre.routes().entries,
                )
            },
            Some(known) => if known != addr {
                post.neighbors() == pre.neighbors() && out == seq![Request::Stop]
            } else {
                &&& post.neighbors() == pre.neighbors().update(if_id@ as int, e.heard(addr, now))
                &&& out == Seq::<Request>::empty()
            },
        }
    }
}

/// What a Hello timer does: on an interface that is up, the next Hello is
/// sent and the timer asked for again; on one that is down, nothing.
pub open spec fn hello_timed_out(
    pre: &SimpleDiv,
    post: &SimpleDiv,
    timer: HelloTimer,
    out: Seq<Request>,
) -> bool {
    let e = pre.neighbors()[timer.interface_id@ as int];
    &&& post.routes() == pre.routes()
    &&& post.neighbors() == pre.neighbors()
    &&& out == if e.is_up {
        greeting(e)
    } else {
        Seq::<Request>::empty()
    }
}

/// What a hold timer that fires at `now` does.
///
/// Without a known neighbor, nothing. While the last Hello is less than
/// the hold time ago, the timer is asked for again, for the time that is
/// left. Otherwise the neighbor is forgotten, the routes that it offered
/// are withdrawn, and the other neighbors are told.
pub open spec fn hold_timed_out(
    pre: &SimpleDiv,
    post: &SimpleDiv,
    timer: NeighborHoldTimer,
    now: SimTime,
    out: Seq<Request>,
) -> bool {
    let i = timer.interface_id;
    let e = pre.neighbors()[i@ as int];
    let deadline = clamp_nanos((e.last_hello_received@ + hold_time_nanos()) as int);
    if e.other_addr is None {
        &&& post.routes() == pre.routes()
        &&& post.neighbors() == pre.neighbors()
        &&& out == Seq::<Request>::empty()
    } else if now@ < deadline {
        &&& post.routes() == pre.routes()
        &&& post.neighbors() == pre.neighbors()
        &&& out == seq![hold_request(i, (deadline - now@) as nat)]
    } else {
        &&& post.neighbors() == pre.neighbors().update(i@ as int, e.forgotten())
        &&& post.routes() == pre.routes().neighbor_lost(i@)
        &&& out == adverts_all(
            post.neighbors(),
            lost_routes(pre.routes().entries, post.routes().entries),
        )
    }
}

impl SimpleDiv {
    /// Add the next interface: to a host where the configuration names it,
    /// else to a router that speaks the protocol.
    pub fn add_interface(&mut self, interface_id: InterfaceId)
        requires
            old(self).wf(),
            !old(self).is_started(),
            interface_id@ == old(self).neighbors().len(),
        ensures
            final(self).wf(),
            !final(self).is_started(),
            final(self).neighbors() == old(self).neighbors().push(
                NeighborTableEntry::fresh(
                    old(self).router(),
                    interface_id,
                    if old(self).cfg().has(interface_id) {
                        InterfaceType::EndSystem
                    } else {
                        InterfaceType::SimpleDV
                    },
                ),
            ),
            final(self).routes() == old(self).routes(),
            final(self).cfg() == old(self).cfg(),
            final(self).router() == old(self).router(),
    {
        let interface_type = if self.config.has_interface(interface_id) {
            InterfaceType::EndSystem
        } else {
            InterfaceType::SimpleDV
        };
        self.neighbor_table.add_entry_for_interface(self.router_id, interface_id, interface_type);
        proof {
            let nbrs = self.neighbors();
            assert forall|i: int| 0 <= i < nbrs.len() implies (#[trigger] nbrs[i]).interface_id@
                == i && !nbrs[i].is_up && nbrs[i].my_addr == (InterfaceAddress {
                router_id: self.router(),
                interface_id: nbrs[i].interface_id,
            }) && (nbrs[i].interface_type == InterfaceType::EndSystem ==> self.cfg().has(
                nbrs[i].interface_id,
            )) by {
                if i < old(self).neighbors().len() {
                    assert(nbrs[i] == old(self).neighbors()[i]);
                }
            }
        }
    }

    /// An interface to a router came up: say Hello, and ask for the timer
    /// of the next Hello.
    pub fn on_simpledv_interface_up(&self, interface_id: InterfaceId) -> (out: Vec<Request>)
        requires
            interface_id@ < self.neighbors().len(),
        ensures
            out@ == greeting(self.neighbors()[interface_id@ as int]),
    {
        let entry = self.neighbor_table.entry(interface_id);
        let if_id = entry.interface_id;
        let mut out: Vec<Request> = Vec::new();
        out.push(
            ControlRequest::Send { interface: if_id, packet: SimpleDVPacket::new_hello(&entry.my_addr) },
        );
        out.push(
            ControlRequest::Timer { delay: hello_interval(), timer: SimpleDVTimer::new_hello_timer(if_id) },
        );
        proof {
            assert(out@ =~= greeting(self.neighbors()[interface_id@ as int]));
        }
        out
    }

    /// An interface to a router went down: forget the neighbor, and where
    /// one was known, withdraw what it offered.
    pub(crate) fn on_simpledv_interface_down(&mut self, interface_id: InterfaceId) -> (out: Vec<
        Request,
    >)
        requires
            old(self).wf(),
            old(self).is_started(),
            interface_id@ < old(self).neighbors().len(),
            old(self).neighbors()[interface_id@ as int].peer(),
        ensures
            final(self).wf(),
            final(self).is_started(),
            final(self).cfg() == old(self).cfg(),
            final(self).router() == old(self).router(),
            final(self).neighbors() == old(self).neighbors().update(
                interface_id@ as int,
                old(self).neighbors()[interface_id@ as int].lowered(),
            ),
            poisoned(final(self).routes().entries, out@),
            if old(self).neighbors()[interface_id@ as int].other_addr is None {
                final(self).routes() == old(self).routes() && out@.len() == 0
            } else {
                final(self).routes() == old(self).routes().neighbor_lost(interface_id@) && out@
                    == adverts_all(
                    final(self).neighbors(),
                    lost_routes(old(self).routes().entries, final(self).routes().entries),
                )
            },
    {
        let mut entry = *self.neighbor_table.entry(interface_id);
        let had_simpledv_neighbor = entry.set_interface_down();
        self.neighbor_table.set_entry(interface_id, entry);
        proof {
            self.lemma_entry_replaced(old(self), interface_id@ as int);
        }
        if had_simpledv_neighbor {
            let ghost mid = *self;
            let out = self.on_neighbor_down(interface_id);
            proof {
                self.lemma_withdrawn(&mid, interface_id@ as int);
            }
            out
        } else {
            let out: Vec<Request> = Vec::new();
            proof {
                lemma_no_update_poisoned(self.routes().entries, out@);
            }
            out
        }
    }

    /// Replacing the entry of an interface by one that differs only in
    /// what is known of the neighbor, the time of the last Hello, or in
    /// being down, keeps the invariant, except that the interface may now
    /// be without a neighbor while it still offers routes.
    pub(crate) proof fn lemma_entry_replaced(&self, before: &SimpleDiv, at: int)
        requires
            before.wf(),
            0 <= at < before.neighbors().len(),
            self.neighbors() == before.neighbors().update(at, self.neighbors()[at]),
            self.neighbors()[at].interface_id == before.neighbors()[at].interface_id,
            self.neighbors()[at].interface_type == before.neighbors()[at].interface_type,
            self.neighbors()[at].my_addr == before.neighbors()[at].my_addr,
            self.neighbors()[at].is_up ==> before.neighbors()[at].is_up || self.is_started(),
            self.routes() == before.routes(),
            self.cfg() == before.cfg(),
            self.router() == before.router(),
            self.is_started() == before.is_started(),
        ensures
            self.almost_wf(at),
            self.neighbors()[at].other_addr is Some || !self.neighbors()[at].peer() ==> self.wf(),
    {
        let nbrs = self.neighbors();
        assert forall|i: int| 0 <= i < nbrs.len() implies (#[trigger] nbrs[i]).interface_id@ == i
            && nbrs[i].my_addr == (InterfaceAddress {
            router_id: self.router(),
            interface_id: nbrs[i].interface_id,
        }) && (nbrs[i].interface_type == InterfaceType::EndSystem ==> self.cfg().has(
            nbrs[i].interface_id,
        )) && (nbrs[i].is_up ==> before.neighbors()[i].is_up || self.is_started()) by {
            if i != at {
                assert(nbrs[i] == before.neighbors()[i]);
            }
        }
        assert forall|i: int, k: int|
            0 <= i < nbrs.len() && i != at && 0 <= k < self.routes().entries.len() && (
            #[trigger] nbrs[i]).peer() && nbrs[i].other_addr is None implies (
        #[trigger] self.routes().entries[k]).distances[i] == infinity() by {
            assert(nbrs[i] == before.neighbors()[i]);
        }
    }

    /// The invariant, but for what the interface `at` offers.
    pub open spec fn almost_wf(&self, at: int) -> bool {
        let nbrs = self.neighbors();
        let routes = self.routes();
        &&& crate::simpledv::neighbortable::in_interface_order(nbrs)
        &&& forall|i: int|
            0 <= i < nbrs.len() ==> (#[trigger] nbrs[i]).my_addr == (InterfaceAddress {
                router_id: self.router(),
                interface_id: nbrs[i].interface_id,
            })
        &&& routes.wf()
        &&& self.is_started() ==> routes.width == nbrs.len()
        &&& !self.is_started() ==> routes.entries.len() == 0 && forall|i: int|
            0 <= i < nbrs.len() ==> !(#[trigger] nbrs[i]).is_up
        &&& forall|i: int|
            0 <= i < nbrs.len() && (#[trigger] nbrs[i]).interface_type == InterfaceType::EndSystem
                ==> self.cfg().has(nbrs[i].interface_id)
        &&& forall|i: int, k: int|
            0 <= i < nbrs.len() && i != at && 0 <= k < routes.entries.len() && (
            #[trigger] nbrs[i]).peer() && nbrs[i].other_addr is None ==> (
            #[trigger] routes.entries[k]).distances[i] == infinity()
    }

    /// Once the interface `at` offers nothing any more, the invariant
    /// holds in full.
    pub(crate) proof fn lemma_withdrawn(&self, before: &SimpleDiv, at: int)
        requires
            before.almost_wf(at),
            before.is_started(),
            0 <= at < before.neighbors().len(),
            self.neighbors() == before.neighbors(),
            self.routes() == before.routes().neighbor_lost(at as nat),
            self.cfg() == before.cfg(),
            self.router() == before.router(),
            self.is_started() == before.is_started(),
        ensures
            self.wf(),
    {
        crate::simpledv::routingtable::lemma_table_neighbor_lost_wf(before.routes(), at as nat);
        let nbrs = self.neighbors();
        assert forall|i: int, k: int|
            0 <= i < nbrs.len() && 0 <= k < self.routes().entries.len() && (#[trigger] nbrs[i]).peer()
                && nbrs[i].other_addr is None implies (#[trigger] self.routes().entries[k]).distances[i]
            == infinity() by {
            assert(before.routes().entries[k].wf(before.routes().width));
            if i != at {
                assert(before.routes().entries[k].distances[i] == infinity());
            }
        }
    }

    /// A Hello from `neighbor_addr` arrived on `if_id` at `now`.
    pub(crate) fn receive_hello(
        &mut self,
        if_id: InterfaceId,
        neighbor_addr: InterfaceAddress,
        now: SimTime,
    ) -> (out: Vec<Request>)
        requires
            old(self).wf(),
            old(self).is_started(),
            if_id@ < old(self).neighbors().len(),
        ensures
            final(self).wf(),
            final(self).is_started(),
            final(self).cfg() == old(self).cfg(),
            final(self).router() == old(self).router(),
            hello_received(old(self), final(self), if_id, neighbor_addr, now, out@),
            poisoned(final(self).routes().entries, out@),
    {
        let entry = *self.neighbor_table.entry(if_id);
        if !entry.is_simpledv_interface() {
            // a Hello from a link that takes no part in the protocol
            let mut out: Vec<Request> = Vec::new();
            out.push(ControlRequest::Stop);
            proof {
                lemma_no_update_poisoned(self.routes().entries, out@);
            }
            return out;
        }
        match entry.other_addr {
            None => {
                let mut heard = entry;
                heard.other_addr = Some(neighbor_addr);
                heard.last_hello_received = now;
                self.neighbor_table.set_entry(if_id, heard);
                proof {
                    self.lemma_entry_replaced(old(self), if_id@ as int);
                }
                let mut out: Vec<Request> = Vec::new();
                out.push(
                    ControlRequest::Timer {
                        delay: hold_time(),
                        timer: SimpleDVTimer::new_hold_timer(if_id),
                    },
                );
                let mut more = self.on_new_neighbor(if_id);
                proof {
                    let routes = self.routes().entries;
                    lemma_no_update_poisoned(routes, out@);
                    assert(routes.take(routes.len() as int) =~= routes);
                    assert forall|k: int| 0 <= k < routes.len() implies (
                    #[trigger] routes[k]).distances[heard.interface_id@ as int] == infinity() by {
                        assert(old(self).neighbors()[if_id@ as int].peer());
                    }
                    lemma_introductions_poisoned(
                        routes,
                        self.routes().width,
                        heard,
                        routes.len() as int,
                    );
                    lemma_poisoned_concat(routes, out@, more@);
                }
                let ghost first = out@;
                let ghost rest = more@;
                out.append(&mut more);
                proof {
                    assert(out@ =~= first + rest);
                    assert(first =~= seq![hold_request(if_id, hold_time_nanos())]);
                    assert(heard == entry.heard(neighbor_addr, now));
                }
                out
            },
            Some(addr) => {
                if neighbor_addr != addr {
                    // another router answers where the neighbor is known
                    let mut out: Vec<Request> = Vec::new();
                    out.push(ControlRequest::Stop);
                    proof {
                        lemma_no_update_poisoned(self.routes().entries, out@);
                    }
                    return out;
                }
                let mut heard = entry;
                heard.last_hello_received = now;
                self.neighbor_table.set_entry(if_id, heard);
                proof {
                    self.lemma_entry_replaced(old(self), if_id@ as int);
                    assert(heard == entry.heard(neighbor_addr, now));
                }
                let out: Vec<Request> = Vec::new();
                proof {
                    lemma_no_update_poisoned(self.routes().entries, out@);
                }
                out
            },
        }
    }

    /// The Hello timer of an interface fired.
    pub(crate) fn timeout_hello(&self, timer: HelloTimer) -> (out: Vec<Request>)
        requires
            timer.interface_id@ < self.neighbors().len(),
            self.wf(),
        ensures
            hello_timed_out(self, self, timer, out@),
    {
        let if_id = timer.interface_id;
        let neighbor = self.neighbor_table.entry(if_id);
        if !neighbor.is_up {
            // the interface is down: no more Hellos
            return Vec::new();
        }
        let mut out: Vec<Request> = Vec::new();
        out.push(
            ControlRequest::Send { interface: if_id, packet: SimpleDVPacket::new_hello(&neighbor.my_addr) },
        );
        out.push(
            ControlRequest::Timer {
                delay: hello_interval(),
                timer: SimpleDVTimer::from_hello_timer(timer),
            },
        );
        proof {
            assert(out@ =~= greeting(self.neighbors()[if_id@ as int]));
        }
        out
    }

    /// The hold timer of an interface fired at `now`.
    pub(crate) fn timeout_hold(&mut self, timer: NeighborHoldTimer, now: SimTime) -> (out: Vec<
        Request,
    >)
        requires
            old(self).wf(),
            old(self).is_started(),
            timer.interface_id@ < old(self).neighbors().len(),
        ensures
            final(self).wf(),
            final(self).is_started(),
            final(self).cfg() == old(self).cfg(),
            final(self).router() == old(self).router(),
            hold_timed_out(old(self), final(self), timer, now, out@),
            poisoned(final(self).routes().entries, out@),
    {
        let if_id = timer.interface_id;
        let neighbor = *self.neighbor_table.entry(if_id);
        if neighbor.other_addr.is_none() {
            // the neighbor is gone already: the timer is stale
            let out: Vec<Request> = Vec::new();
            proof {
                lemma_no_update_poisoned(self.routes().entries, out@);
            }
            return out;
        }
        let delete_time = neighbor.last_hello_received + hold_time();
        if now.is_before(&delete_time) {
            // the neighbor was heard of since: wait for the time that is left
            let delta = delete_time - now;
            let mut out: Vec<Request> = Vec::new();
            out.push(
                ControlRequest::Timer { delay: delta, timer: SimpleDVTimer::from_hold_timer(timer) },
            );
            proof {
                lemma_no_update_poisoned(self.routes().entries, out@);
                assert(out@ =~= seq![hold_request(if_id, (delete_time@ - now@) as nat)]);
            }
            out
        } else {
            let mut forgotten = neighbor;
            forgotten.other_addr = None;
            forgotten.last_hello_received = SimTime::from_nanos(0);
            self.neighbor_table.set_entry(if_id, forgotten);
            proof {
                self.lemma_entry_replaced(old(self), if_id@ as int);
            }
            let ghost mid = *self;
            let out = self.on_neighbor_down(if_id);
            proof {
                self.lemma_withdrawn(&mid, if_id@ as int);
            }
            out
        }
    }
}

} // verus!
