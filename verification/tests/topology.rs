use d2simrs::channels::delay_channel::DelayChannel;
use d2simrs::keys::ComponentId;
use d2simrs::sim::Simulation;
use d2simrs::simpledv::builder::{NetworkBuilder, Node};
use d2simrs::simpledv::router::{Frame, InternalEvent};
use d2simrs::topo::anchoredrandomgraph::AnchoredRandomGraphGen;
use d2simrs::topo::topo::Topology;
use d2simrs::topo::topobuilder::TopologyBuilder;
use d2simrs::topo::topogen::{EdgesGenerator, TopologyGenerator};

#[test]
fn builder_numbers_nodes_and_edges_in_order() {
    let mut b: TopologyBuilder<&str, u32> = TopologyBuilder::new();
    b.add_node("a");
    b.add_node("b");
    b.add_node("c");
    assert_eq!(b.node_count(), 3);
    b.add_edge(0, 1, 7);
    b.add_edge(2, 1, 8);
    b.add_edge(1, 1, 9);
    assert_eq!(b.edge_count(), 3);
    assert_eq!(*b.node_ref(1), "b");
    *b.node_ref_mut(1) = "B";
    assert_eq!(*b.node_ref(1), "B");
    // an edge from a node to itself counts once
    assert_eq!(b.count_edges(0), 1);
    assert_eq!(b.count_edges(1), 3);
    assert_eq!(b.count_edges(2), 1);
    let topo = b.build_topo();
    assert_eq!(topo.node_count(), 3);
    assert_eq!(topo.edge_count(), 3);
    assert_eq!(topo.edge_endpoints(0), (0, 1));
    assert_eq!(topo.edge_endpoints(1), (2, 1));
    assert_eq!(topo.edge_endpoints(2), (1, 1));
    assert_eq!(topo.edge(1).data, 8);
    assert!(topo.edge(1).channle_id.is_none());
    assert_eq!(topo.node(2).data, "c");
    assert!(topo.node(2).component_id.is_none());
    assert!(topo.joined(0, 1));
    assert!(topo.joined(1, 0));
    assert!(topo.joined(1, 2));
    assert!(!topo.joined(0, 2));
    assert_eq!(topo.degree_of(1), 3);
}

#[test]
fn components_are_counted_and_edges_cleared() {
    let mut t: Topology<(), ()> = Topology::new();
    for _ in 0..5 {
        t.add_node(());
    }
    assert_eq!(t.connected_components(), 5);
    t.add_edge(0, 1, ());
    t.add_edge(1, 2, ());
    t.add_edge(3, 4, ());
    assert_eq!(t.connected_components(), 2);
    t.add_edge(4, 0, ());
    assert_eq!(t.connected_components(), 1);
    t.clear_edges();
    assert_eq!(t.edge_count(), 0);
    assert_eq!(t.node_count(), 5);
    assert_eq!(t.degree_of(1), 0);
    assert!(!t.joined(0, 1));
    assert_eq!(t.connected_components(), 5);
    t.set_component(2, ComponentId::new(9));
    assert_eq!(t.node(2).component_id, Some(ComponentId::new(9)));
}

#[test]
fn partner_is_the_next_free_node_going_round() {
    let mut t: Topology<(), ()> = Topology::new();
    for _ in 0..4 {
        t.add_node(());
    }
    t.add_edge(0, 1, ());
    t.add_edge(2, 0, ());
    assert_eq!(AnchoredRandomGraphGen::pick_partner(&t, 0, 0), Some(3));
    assert_eq!(AnchoredRandomGraphGen::pick_partner(&t, 0, 3), Some(3));
    assert_eq!(AnchoredRandomGraphGen::pick_partner(&t, 1, 0), Some(2));
    assert_eq!(AnchoredRandomGraphGen::pick_partner(&t, 1, 1), Some(2));
    assert_eq!(AnchoredRandomGraphGen::pick_partner(&t, 1, 3), Some(3));
    assert_eq!(AnchoredRandomGraphGen::pick_partner(&t, 3, 3), Some(0));
    t.add_edge(0, 3, ());
    assert_eq!(AnchoredRandomGraphGen::pick_partner(&t, 0, 2), None);
    // node 0 is joined to all: the first pair starts at node 1
    assert_eq!(AnchoredRandomGraphGen::pick_pair(&t, 0, 0), Some((1, 2)));
    assert_eq!(AnchoredRandomGraphGen::pick_pair(&t, 3, 3), Some((3, 1)));
    t.add_edge(1, 2, ());
    t.add_edge(1, 3, ());
    t.add_edge(2, 3, ());
    assert_eq!(AnchoredRandomGraphGen::pick_pair(&t, 2, 1), None);
}

fn check_generated(t: &Topology<(), ()>, nodes: usize, min_degree: usize, min_edges: usize) {
    assert_eq!(t.node_count(), nodes);
    assert!(t.edge_count() >= min_edges);
    for a in 0..nodes {
        assert!(t.degree_of(a) >= min_degree);
    }
    let mut seen = Vec::new();
    for e in 0..t.edge_count() {
        let (a, b) = t.edge_endpoints(e);
        assert!(a != b);
        let pair = (a.min(b), a.max(b));
        assert!(!seen.contains(&pair));
        seen.push(pair);
    }
}

#[test]
fn generated_graph_is_simple_and_anchored() {
    let mut strategy = AnchoredRandomGraphGen::with_edges(12, 2, 20);
    assert_eq!(strategy.estimated_edges_count(), 20);
    let mut gen = TopologyGenerator::new(12, strategy);
    let (t, complete) = gen.build_network();
    assert!(complete);
    check_generated(&t, 12, 2, 20);
}

#[test]
fn connected_network_is_connected() {
    let strategy = AnchoredRandomGraphGen::with_edges(8, 1, 20);
    let mut gen = TopologyGenerator::new(8, strategy);
    // 20 of the 28 possible edges: a node is cut off only if all its 7 edges are missing
    let t = gen.try_build_connected_network().unwrap();
    check_generated(&t, 8, 1, 20);
    assert_eq!(t.connected_components(), 1);
}

#[test]
fn too_many_edges_cannot_be_found() {
    // three nodes have room for three edges
    let strategy = AnchoredRandomGraphGen::with_edges(3, 1, 4);
    let mut gen = TopologyGenerator::new(3, strategy);
    let (t, complete) = gen.build_network();
    assert!(!complete);
    assert_eq!(t.edge_count(), 3);
    assert!(gen.try_build_connected_network().is_none());
    // a node cannot have more neighbors than there are other nodes
    let strategy = AnchoredRandomGraphGen::with_edges(3, 3, 0);
    let mut gen = TopologyGenerator::new(3, strategy);
    assert!(!gen.build_network().1);
    // no nodes, no edges
    let strategy = AnchoredRandomGraphGen::with_edges(0, 0, 1);
    let mut gen = TopologyGenerator::new(0, strategy);
    assert!(!gen.build_network().1);
    let strategy = AnchoredRandomGraphGen::with_edges(0, 0, 0);
    let mut gen = TopologyGenerator::new(0, strategy);
    assert!(gen.build_network().1);
}

#[test]
fn network_builder_configures_the_router_next_to_a_host() {
    let mut nb = NetworkBuilder::new();
    nb.add_router(); // node 0, router 1
    nb.add_router(); // node 1, router 2
    nb.add_host(); // node 2
    assert_eq!(nb.node_count(), 3);
    nb.add_link(0, 1);
    nb.add_link(1, 2);
    assert_eq!(nb.link_count(), 2);
    let mut sim: Simulation<InternalEvent, Frame, Node, DelayChannel> = Simulation::new();
    nb.build_sim(&mut sim);
    assert_eq!(sim.component_count(), 3);
    assert_eq!(sim.channel_count(), 2);
    let ch = sim.channel(d2simrs::keys::ChannelId::new(1));
    assert_eq!(ch.left, ComponentId::new(1));
    assert_eq!(ch.right, ComponentId::new(2));
    assert_eq!(ch.delay.as_nanos(), 1_000_000);
    assert!(sim.component(ComponentId::new(2)).as_router().is_none());
    let r1 = sim.component(ComponentId::new(0)).as_router().unwrap();
    assert_eq!(r1.control_plane().router_id().0, 1);
    assert!(r1.control_plane().config().is_empty());
    assert_eq!(r1.layer2().interface_count(), 1);
    let r2 = sim.component(ComponentId::new(1)).as_router().unwrap();
    assert_eq!(r2.control_plane().router_id().0, 2);
    // the host is on router 2's second interface
    let if1 = d2simrs::basicnet::types::InterfaceId::from(1);
    assert!(r2.control_plane().config().has_interface(if1));
    let addr = r2.control_plane().config().get_config(if1).advertise_addr;
    assert_eq!(addr.router_id.0, 2);
    assert_eq!(addr.interface_id, if1);
    assert_eq!(r2.layer2().interface_count(), 2);
    assert!(!r2.control_plane().neighbor_table().entry(if1).is_simpledv_interface());
}
