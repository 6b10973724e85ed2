//! Builds a network of hosts and routers: first as a topology, then as the
//! components and channels of a run.

use crate::basicnet::types::{InterfaceId, RouterId};
use crate::channel::ChannelBuilder;
use crate::channels::delay_channel::{DelayChannel, DelayChannelBuilder};
use crate::component::{ChannelLabel, Component, ComponentBuilder};
use crate::dummycomponent::{DummyComponent, DummyComponentBuilder};
use crate::keys::{ChannelId, ComponentId};
use crate::scheduler::{Scheduler, SchedulerView};
use crate::sim::{Phase, Simulation};
use crate::simpledv::addr::HostAddr;
use crate::simpledv::config::{Config, InterfaceConfig};
use crate::simpledv::metric::Metric;
use crate::simpledv::router::{Frame, InternalEvent, Router, RouterBuilder};
use crate::simtime::NANOS_PER_MILLI;
use crate::topo::graph::{degree, GRAPH_LIMIT};
use crate::topo::sim::{built_from, FromGraphBuilder};
use crate::topo::topo::Topology;
use crate::topo::topobuilder::TopologyBuilder;
use crate::topo::topodecl::TopoNode;
use crate::util::uid::UIdGenSequential;
use vstd::prelude::*;

verus! {

/// A node of the network: a host, which takes no part in the protocol, or
/// a router.
pub enum Node {
    Host(DummyComponent),
    Router(Router),
}

impl Component<InternalEvent, Frame> for Node {
    open spec fn inv(&self) -> bool {
        match self {
            Node::Host(_) => true,
            Node::Router(r) => r.wf(),
        }
    }

    open spec fn id(&self) -> ComponentId {
        match self {
            Node::Host(h) => h.ident(),
            Node::Router(r) => r.helper().id(),
        }
    }

    open spec fn attached(&self) -> Set<ChannelId> {
        match self {
            Node::Host(_) => Set::empty(),
            Node::Router(r) => r.link().channels(),
        }
    }

    /// A host ignores the channel; a router takes it as its next
    /// interface.
    open spec fn channel_effect(pre: &Self, post: &Self, channel_id: ChannelId, label: ChannelLabel) -> bool {
        match (pre, post) {
            (Node::Host(a), Node::Host(b)) => *b == *a,
            (Node::Router(a), Node::Router(b)) => Router::attached_to(a, b, channel_id),
            _ => false,
        }
    }

    open spec fn terminate_effect(pre: &Self, post: &Self) -> bool {
        match (pre, post) {
            (Node::Host(a), Node::Host(b)) => *b == *a,
            (Node::Router(a), Node::Router(b)) => Router::terminated(a, b),
            _ => false,
        }
    }

    /// A host does nothing; a router does what routers do.
    open spec fn init_effect(
        pre: &Self,
        post: &Self,
        before: SchedulerView<InternalEvent, Frame>,
        after: SchedulerView<InternalEvent, Frame>,
    ) -> bool {
        match (pre, post) {
            (Node::Host(a), Node::Host(b)) => DummyComponent::idle(a, b, before, after),
            (Node::Router(a), Node::Router(b)) => Router::initialized(a, b, before, after),
            _ => false,
        }
    }

    /// A host aborts the run; a router does what routers do.
    open spec fn event_effect(
        pre: &Self,
        post: &Self,
        sender: ComponentId,
        event: Option<InternalEvent>,
        before: SchedulerView<InternalEvent, Frame>,
        after: SchedulerView<InternalEvent, Frame>,
    ) -> bool {
        match (pre, post) {
            (Node::Host(a), Node::Host(b)) => DummyComponent::refused(a, b, before, after),
            (Node::Router(a), Node::Router(b)) => Router::woken(a, b, sender, event, before, after),
            _ => false,
        }
    }

    /// A host aborts the run; a router does what routers do.
    open spec fn message_effect(
        pre: &Self,
        post: &Self,
        incoming_channel: ChannelId,
        msg: Frame,
        before: SchedulerView<InternalEvent, Frame>,
        after: SchedulerView<InternalEvent, Frame>,
    ) -> bool {
        match (pre, post) {
            (Node::Host(a), Node::Host(b)) => DummyComponent::refused(a, b, before, after),
            (Node::Router(a), Node::Router(b)) => Router::received(
                a,
                b,
                incoming_channel,
                msg,
                before,
                after,
            ),
            _ => false,
        }
    }

    fn sim_id(&self) -> (r: ComponentId) {
        match self {
            Node::Host(h) => Component::<InternalEvent, Frame>::sim_id(h),
            Node::Router(r) => r.sim_id(),
        }
    }

    fn add_channel(&mut self, channel_id: ChannelId, label: ChannelLabel) {
        match self {
            Node::Host(h) => Component::<InternalEvent, Frame>::add_channel(h, channel_id, label),
            Node::Router(r) => r.add_channel(channel_id, label),
        }
    }

    fn init(&mut self, sched: &mut Scheduler<InternalEvent, Frame>) {
        match self {
            Node::Host(h) => h.init(sched),
            Node::Router(r) => r.init(sched),
        }
    }

    fn process_event(
        &mut self,
        sender: ComponentId,
        event: Option<InternalEvent>,
        sched: &mut Scheduler<InternalEvent, Frame>,
    ) {
        match self {
            Node::Host(h) => h.process_event(sender, event, sched),
            Node::Router(r) => r.process_event(sender, event, sched),
        }
    }

    fn receive_msg(
        &mut self,
        incoming_channel: ChannelId,
        msg: Frame,
        sched: &mut Scheduler<InternalEvent, Frame>,
    ) {
        match self {
            Node::Host(h) => h.receive_msg(incoming_channel, msg, sched),
            Node::Router(r) => r.receive_msg(incoming_channel, msg, sched),
        }
    }

    fn terminate(&mut self) {
        match self {
            Node::Host(h) => Component::<InternalEvent, Frame>::terminate(h),
            Node::Router(r) => r.terminate(),
        }
    }
}

impl Node {
    /// The router that this node is, if it is one.
    pub fn as_router(&self) -> (r: Option<&Router>)
        ensures
            match self {
                Node::Router(x) => r == Some(x),
                Node::Host(_) => r is None,
            },
    {
        match self {
            Node::Router(x) => Some(x),
            Node::Host(_) => None,
        }
    }
}

/// What a router node carries: the identifier under which the router runs
/// the protocol, and its configuration.
#[derive(Debug)]
pub struct RouterConfig {
    pub router_id: RouterId,
    pub router_config: Config,
}

impl Clone for RouterConfig {
    fn clone(&self) -> (r: Self)
        ensures
            r.router_id == self.router_id,
            r.router_config@ == self.router_config@,
    {
        RouterConfig { router_id: self.router_id, router_config: self.router_config.clone() }
    }
}

/// What a node of the topology carries.
#[derive(Debug)]
pub enum NodeData {
    Host,
    Router(RouterConfig),
}

impl Clone for NodeData {
    fn clone(&self) -> (r: Self)
        ensures
            self is Host <==> r is Host,
            self is Router ==> r->Router_0.router_id == self->Router_0.router_id
                && r->Router_0.router_config@ == self->Router_0.router_config@,
    {
        match self {
            NodeData::Host => NodeData::Host,
            NodeData::Router(cfg) => NodeData::Router(cfg.clone()),
        }
    }
}

/// What an edge of the topology carries.
#[derive(Debug, Clone, Copy)]
pub struct EdgeData {
    pub metric: Metric,
}

/// Makes the components and channels of a network: a host or a router for
/// each node, as the node says, and a channel with a delay of one
/// millisecond for each edge.
pub struct NetworkComponentBuilder {
    next_node: NodeData,
    dummy_builder: DummyComponentBuilder,
    router_builder: RouterBuilder,
}

impl NetworkComponentBuilder {
    /// What the next component is built from.
    pub closed spec fn next(&self) -> NodeData {
        self.next_node
    }

    pub fn new() -> (r: Self)
        ensures
            r.next() is Host,
    {
        NetworkComponentBuilder {
            next_node: NodeData::Host,
            dummy_builder: DummyComponentBuilder::default(),
            router_builder: RouterBuilder::default(),
        }
    }
}

impl ComponentBuilder<InternalEvent, Frame> for NetworkComponentBuilder {
    type C = Node;

    open spec fn ready(&self) -> bool {
        true
    }

    /// A host for a host node; for a router node a router that runs the
    /// protocol under the node's identifier with the node's
    /// configuration.
    open spec fn builds(pre: &Self, post: &Self, id: ComponentId, built: &Node) -> bool {
        &&& post.next() == pre.next()
        &&& match pre.next() {
            NodeData::Host => *built is Host && built->Host_0.ident() == id,
            NodeData::Router(cfg) => *built is Router && Router::fresh(
                &built->Router_0,
                id,
                cfg.router_id,
                cfg.router_config@,
            ),
        }
    }

    fn build_component(&mut self, id: ComponentId) -> (r: Node) {
        match &self.next_node {
            NodeData::Host => {
                let h = ComponentBuilder::<InternalEvent, Frame>::build_component(
                    &mut self.dummy_builder,
                    id,
                );
                Node::Host(h)
            },
            NodeData::Router(cfg) => {
                let r = self.router_builder.build_router(id, cfg.router_id, &cfg.router_config);
                proof {
                    assert(r.link().channels() =~= Set::<ChannelId>::empty());
                }
                Node::Router(r)
            },
        }
    }
}

impl ChannelBuilder for NetworkComponentBuilder {
    type C = DelayChannel;

    /// A channel with a delay of one millisecond.
    open spec fn builds(&self, c: ChannelId, left: ComponentId, right: ComponentId, built: &DelayChannel) -> bool {
        &&& built.id == c
        &&& built.left == left
        &&& built.right == right
        &&& built.delay@ == NANOS_PER_MILLI
    }

    fn build_channel(&self, c: ChannelId, from: ComponentId, to: ComponentId) -> (r: DelayChannel) {
        let mut channel_builder = DelayChannelBuilder::new();
        channel_builder.delay_millis(1);
        channel_builder.build_channel(c, from, to)
    }
}

impl FromGraphBuilder for NetworkComponentBuilder {
    type Node = NodeData;

    type Edge = EdgeData;

    open spec fn configured(&self) -> bool {
        true
    }

    /// The next component is built from a copy of what the node carries.
    open spec fn node_effect(pre: &Self, post: &Self, node: &NodeData) -> bool {
        &&& *node is Host <==> post.next() is Host
        &&& *node is Router ==> post.next()->Router_0.router_id == node->Router_0.router_id
            && post.next()->Router_0.router_config@ == node->Router_0.router_config@
    }

    /// Every edge is built alike.
    open spec fn edge_effect(pre: &Self, post: &Self, edge: &EdgeData) -> bool {
        *post == *pre
    }

    fn node_cfg(&mut self, node: &NodeData) -> (r: &mut Self) {
        self.next_node = node.clone();
        self
    }

    fn edge_cfg(&mut self, _edge: &EdgeData) -> (r: &mut Self) {
        self
    }
}

/// Builds a network of hosts and routers.
pub struct NetworkBuilder {
    topo_builder: TopologyBuilder<NodeData, EdgeData>,
    uid_gen: UIdGenSequential,
}

impl NetworkBuilder {
    /// The topology built so far.
    pub closed spec fn topo(&self) -> Topology<NodeData, EdgeData> {
        self.topo_builder.topo()
    }

    /// The identifier that the next router gets.
    pub closed spec fn next_router(&self) -> nat {
        self.uid_gen.next()
    }

    pub open spec fn wf(&self) -> bool {
        self.topo().wf()
    }

    /// A network without nodes. The first router will get the identifier
    /// 1.
    pub fn new() -> (r: Self)
        ensures
            r.wf(),
            r.topo().nodes().len() == 0,
            r.topo().edges().len() == 0,
            r.next_router() == 1,
    {
        NetworkBuilder { topo_builder: TopologyBuilder::new(), uid_gen: UIdGenSequential::new(1) }
    }

    /// The number of nodes.
    pub fn node_count(&self) -> (r: usize)
        ensures
            r == self.topo().nodes().len(),
    {
        self.topo_builder.node_count()
    }

    /// The number of links.
    pub fn link_count(&self) -> (r: usize)
        ensures
            r == self.topo().edges().len(),
    {
        self.topo_builder.edge_count()
    }

    /// Add a host as the next node.
    pub fn add_host(&mut self)
        requires
            old(self).wf(),
            old(self).topo().nodes().len() < GRAPH_LIMIT,
        ensures
            final(self).wf(),
            final(self).topo().nodes() == old(self).topo().nodes().push(
                TopoNode { component_id: None, data: NodeData::Host },
            ),
            final(self).topo().edges() == old(self).topo().edges(),
            final(self).topo().links() == old(self).topo().links(),
            final(self).next_router() == old(self).next_router(),
    {
        let node_data = NodeData::Host;
        self.topo_builder.add_node(node_data);
    }

    /// Add a router as the next node. It gets the next identifier and an
    /// empty configuration.
    pub fn add_router(&mut self)
        requires
            old(self).wf(),
            old(self).topo().nodes().len() < GRAPH_LIMIT,
            old(self).next_router() < usize::MAX,
        ensures
            final(self).wf(),
            final(self).topo().nodes().len() == old(self).topo().nodes().len() + 1,
            final(self).topo().nodes().drop_last() == old(self).topo().nodes(),
            final(self).topo().nodes().last().component_id is None,
            final(self).topo().nodes().last().data is Router,
            final(self).topo().nodes().last().data->Router_0.router_id.0 == old(self).next_router(),
            final(self).topo().nodes().last().data->Router_0.router_config@.len() == 0,
            final(self).topo().edges() == old(self).topo().edges(),
            final(self).topo().links() == old(self).topo().links(),
            final(self).next_router() == old(self).next_router() + 1,
    {
        let node_data = NodeData::Router(
            RouterConfig { router_id: self.uid_gen.generate_uid(), router_config: Config::default() },
        );
        self.topo_builder.add_node(node_data);
        proof {
            assert(self.topo().nodes().drop_last() =~= old(self).topo().nodes());
        }
    }

    /// The router end of a link between `from` and `to` that has a host at
    /// one end: `to` where `from` is a host, else `from` where `to` is
    /// one.
    pub open spec fn host_link(nodes: Seq<TopoNode<NodeData>>, from: int, to: int) -> Option<int> {
        if nodes[from].data is Host {
            Some(to)
        } else if nodes[to].data is Host {
            Some(from)
        } else {
            None
        }
    }

    /// Add a link between the nodes `from` and `to`. Where one of them is
    /// a host, the router at the other end is configured for it: the link
    /// is the router's latest interface, and the host's address is made of
    /// the router's identifier and that interface.
    pub fn add_link(&mut self, from: usize, to: usize)
        requires
            old(self).wf(),
            from < old(self).topo().nodes().len(),
            to < old(self).topo().nodes().len(),
            old(self).topo().edges().len() < GRAPH_LIMIT,
        ensures
            final(self).wf(),
            final(self).next_router() == old(self).next_router(),
            final(self).topo().links() == old(self).topo().links().push((from as nat, to as nat)),
            final(self).topo().edges().len() == old(self).topo().edges().len() + 1,
            final(self).topo().edges().drop_last() == old(self).topo().edges(),
            final(self).topo().edges().last().channle_id is None,
            final(self).topo().edges().last().data.metric@ == 1,
            final(self).topo().nodes().len() == old(self).topo().nodes().len(),
            forall|k: int|
                0 <= k < old(self).topo().nodes().len() && Some(k) != Self::host_link(
                    old(self).topo().nodes(),
                    from as int,
                    to as int,
                ) ==> (#[trigger] final(self).topo().nodes()[k]) == old(self).topo().nodes()[k],
            match Self::host_link(old(self).topo().nodes(), from as int, to as int) {
                Some(k) => match old(self).topo().nodes()[k].data {
                    NodeData::Router(cfg) => {
                        let interface = (degree(final(self).topo().links(), k as nat) - 1) as nat;
                        let now = final(self).topo().nodes()[k];
                        &&& now.component_id == old(self).topo().nodes()[k].component_id
                        &&& now.data is Router
                        &&& now.data->Router_0.router_id == cfg.router_id
                        &&& now.data->Router_0.router_config@ == cfg.router_config@.push(
                            InterfaceConfig {
                                if_id: InterfaceId::of(interface),
                                advertise_addr: HostAddr {
                                    router_id: cfg.router_id,
                                    interface_id: InterfaceId::of(interface),
                                },
                            },
                        )
                    },
                    NodeData::Host => final(self).topo().nodes()[k] == old(self).topo().nodes()[k],
                },
                None => true,
            },
    {
        let edge_data = EdgeData { metric: Metric::one_hop() };
        self.topo_builder.add_edge(from, to, edge_data);
        proof {
            assert(self.topo().edges().drop_last() =~= old(self).topo().edges());
        }

        // where from or to is a host, the router at the other end is told
        let mut router_idx: Option<usize> = None;
        let from_is_host = match self.topo_builder.node_ref(from) {
            NodeData::Host => true,
            NodeData::Router(_) => false,
        };
        let to_is_host = match self.topo_builder.node_ref(to) {
            NodeData::Host => true,
            NodeData::Router(_) => false,
        };
        if from_is_host {
            router_idx = Some(to);
        } else if to_is_host {
            router_idx = Some(from);
        }
        if router_idx.is_some() {
            let router_idx = router_idx.unwrap();
            let edges_num = self.topo_builder.count_edges(router_idx);
            proof {
                let links = self.topo().links();
                assert(links.drop_last() =~= old(self).topo().links());
                assert(links.last() == (from as nat, to as nat));
            }
            let interface = InterfaceId::from(edges_num - 1);
            proof {
                InterfaceId::lemma_of((edges_num - 1) as nat);
                InterfaceId::lemma_view_injective(interface, InterfaceId::of((edges_num - 1) as nat));
            }
            match self.topo_builder.node_ref_mut(router_idx) {
                NodeData::Router(cfg) => {
                    cfg.router_config.add_interface(
                        interface,
                        HostAddr { router_id: cfg.router_id, interface_id: interface },
                    );
                },
                NodeData::Host => {},
            }
        }
    }

    /// Add the network's components and channels to `sim`: the node `i`
    /// becomes the component behind those that were there already, at
    /// position `i`. A host node becomes a host, a router node a router
    /// with the node's identifier and configuration, and a link a channel
    /// with a delay of one millisecond.
    pub fn build_sim(self, sim: &mut Simulation<InternalEvent, Frame, Node, DelayChannel>)
        requires
            self.wf(),
            old(sim).wf(),
            old(sim).phase() == Phase::Building,
            old(sim).components().len() + self.topo().nodes().len() <= usize::MAX,
            old(sim).channels().len() + self.topo().edges().len() <= usize::MAX,
        ensures
            final(sim).wf(),
            final(sim).phase() == Phase::Building,
            exists|maker: NetworkComponentBuilder, made: NetworkComponentBuilder|
                #[trigger] built_from(old(sim), final(sim), &maker, &made, self.topo()),
            final(sim).sched() == old(sim).sched(),
            final(sim).components().len() == old(sim).components().len() + self.topo().nodes().len(),
            final(sim).channels().len() == old(sim).channels().len() + self.topo().edges().len(),
            forall|j: int|
                0 <= j < self.topo().edges().len() ==> {
                    let ch = #[trigger] final(sim).channels()[old(sim).channels().len() + j];
                    &&& ch.left.idx() == old(sim).components().len() + self.topo().links()[j].0
                    &&& ch.right.idx() == old(sim).components().len() + self.topo().links()[j].1
                },
    {
        let topo = self.topo_builder.build_topo();
        let mut nc = NetworkComponentBuilder::new();
        let ghost maker = nc;
        let _ = sim.build_from_topo(*topo, &mut nc);
        proof {
            assert(built_from(old(sim), &*sim, &maker, &nc, self.topo()));
        }
    }
}

} // verus!
