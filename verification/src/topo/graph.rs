//! The undirected graph of `petgraph` holds the shape of a topology: how
//! many nodes there are, and which pairs of them the edges join. What the
//! nodes and edges carry is kept beside it.

use petgraph::graph::{EdgeIndex, Graph, NodeIndex};
use petgraph::Undirected;
use vstd::prelude::*;

verus! {

/// `petgraph::graph::Graph`, a graph in adjacency-list form. Nothing is
/// known of what is inside it but what the functions below say.
#[verifier::external_type_specification]
#[verifier::external_body]
#[verifier::reject_recursive_types(N)]
#[verifier::reject_recursive_types(E)]
#[verifier::reject_recursive_types(Ty)]
#[verifier::reject_recursive_types(Ix)]
pub struct ExGraph<N, E, Ty, Ix>(Graph<N, E, Ty, Ix>);

/// `petgraph::Undirected`, the marker of graphs whose edges have no
/// direction.
#[verifier::external_type_specification]
#[verifier::external_body]
pub struct ExUndirected(Undirected);

/// An undirected graph without weights, indexed by `u32`.
pub type Links = Graph<(), (), Undirected, u32>;

/// The most nodes, and the most edges, that a graph can hold: its indices
/// are `u32`, and the largest `u32` marks the end of a list.
pub const GRAPH_LIMIT: usize = 4_294_967_295;

/// The number of nodes of a graph.
pub uninterp spec fn graph_nodes(g: Links) -> nat;

/// The edges of a graph in the order in which they were added, each by the
/// numbers of the two nodes that it was added with.
pub uninterp spec fn graph_edges(g: Links) -> Seq<(nat, nat)>;

/// The number of connected components of the graph with `nodes` nodes and
/// the given edges.
pub uninterp spec fn components_of(nodes: nat, edges: Seq<(nat, nat)>) -> nat;

/// Whether the edge joins `a` to some node.
pub open spec fn touches(edge: (nat, nat), a: nat) -> bool {
    edge.0 == a || edge.1 == a
}

/// Whether the edge joins `a` and `b`, in either direction.
pub open spec fn joins(edge: (nat, nat), a: nat, b: nat) -> bool {
    (edge.0 == a && edge.1 == b) || (edge.0 == b && edge.1 == a)
}

/// How many of the edges touch `a`. An edge from a node to itself counts
/// once.
pub open spec fn degree(edges: Seq<(nat, nat)>, a: nat) -> nat
    decreases edges.len(),
{
    if edges.len() == 0 {
        0
    } else {
        degree(edges.drop_last(), a) + if touches(edges.last(), a) {
            1nat
        } else {
            0nat
        }
    }
}

/// `Graph::new_undirected`: a graph without nodes and edges.
#[verifier::external_body]
pub(crate) fn graph_new() -> (g: Links)
    ensures
        graph_nodes(g) == 0,
        graph_edges(g) == Seq::<(nat, nat)>::empty(),
{
    Graph::new_undirected()
}

/// `Graph::add_node`: the new node gets the next number; the edges stay.
/// The graph must not be full.
#[verifier::external_body]
pub(crate) fn graph_add_node(g: &mut Links) -> (r: usize)
    requires
        graph_nodes(*old(g)) < GRAPH_LIMIT,
    ensures
        r == graph_nodes(*old(g)),
        graph_nodes(*final(g)) == graph_nodes(*old(g)) + 1,
        graph_edges(*final(g)) == graph_edges(*old(g)),
{
    g.add_node(()).index()
}

/// `Graph::add_edge`: the new edge gets the next number and stands last;
/// the nodes stay. Both nodes must exist, and the graph must not be full.
#[verifier::external_body]
pub(crate) fn graph_add_edge(g: &mut Links, a: usize, b: usize) -> (r: usize)
    requires
        a < graph_nodes(*old(g)),
        b < graph_nodes(*old(g)),
        graph_nodes(*old(g)) <= GRAPH_LIMIT,
        graph_edges(*old(g)).len() < GRAPH_LIMIT,
    ensures
        r == graph_edges(*old(g)).len(),
        graph_nodes(*final(g)) == graph_nodes(*old(g)),
        graph_edges(*final(g)) == graph_edges(*old(g)).push((a as nat, b as nat)),
{
    g.add_edge(NodeIndex::new(a), NodeIndex::new(b), ()).index()
}

/// `Graph::edge_endpoints`: the two nodes that the edge `e` was added
/// with.
#[verifier::external_body]
pub(crate) fn graph_edge_endpoints(g: &Links, e: usize) -> (r: Option<(usize, usize)>)
    requires
        e < graph_edges(*g).len(),
        e < GRAPH_LIMIT,
    ensures
        r is Some,
        r.unwrap().0 == graph_edges(*g)[e as int].0,
        r.unwrap().1 == graph_edges(*g)[e as int].1,
{
    match g.edge_endpoints(EdgeIndex::new(e)) {
        Some((a, b)) => Some((a.index(), b.index())),
        None => None,
    }
}

/// `Graph::neighbors`, counted: in an undirected graph the iterator yields
/// one node for every edge that touches `a`, and one for an edge from `a`
/// to itself.
#[verifier::external_body]
pub(crate) fn graph_degree(g: &Links, a: usize) -> (r: usize)
    requires
        a < graph_nodes(*g),
        a < GRAPH_LIMIT,
    ensures
        r == degree(graph_edges(*g), a as nat),
{
    g.neighbors(NodeIndex::new(a)).count()
}

/// `Graph::find_edge`: in an undirected graph, an edge that joins `a` and
/// `b` in either direction, if there is one.
#[verifier::external_body]
pub(crate) fn graph_find_edge(g: &Links, a: usize, b: usize) -> (r: Option<usize>)
    requires
        a < graph_nodes(*g),
        b < graph_nodes(*g),
        graph_nodes(*g) <= GRAPH_LIMIT,
    ensures
        match r {
            Some(e) => e < graph_edges(*g).len() && joins(graph_edges(*g)[e as int], a as nat, b as nat),
            None => forall|e: int|
                0 <= e < graph_edges(*g).len() ==> !joins(
                    #[trigger] graph_edges(*g)[e],
                    a as nat,
                    b as nat,
                ),
        },
{
    match g.find_edge(NodeIndex::new(a), NodeIndex::new(b)) {
        Some(e) => Some(e.index()),
        None => None,
    }
}

/// `Graph::clear_edges`: the edges go, the nodes stay.
#[verifier::external_body]
pub(crate) fn graph_clear_edges(g: &mut Links)
    ensures
        graph_nodes(*final(g)) == graph_nodes(*old(g)),
        graph_edges(*final(g)) == Seq::<(nat, nat)>::empty(),
{
    g.clear_edges()
}

/// `petgraph::algo::connected_components`: the number of connected
/// components, which the nodes and edges determine.
#[verifier::external_body]
pub(crate) fn graph_connected_components(g: &Links) -> (r: usize)
    ensures
        r == components_of(graph_nodes(*g), graph_edges(*g)),
{
    petgraph::algo::connected_components(g)
}

} // verus!
