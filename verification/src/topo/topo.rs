//! A topology: an undirected graph whose nodes stand for components and
//! whose edges stand for channels.

use crate::keys::{ChannelId, ComponentId};
use crate::topo::graph::{
    components_of, degree, graph_add_edge, graph_add_node, graph_clear_edges,
    graph_connected_components, graph_degree, graph_edge_endpoints, graph_edges, graph_find_edge,
    graph_new, graph_nodes, joins, Links, GRAPH_LIMIT,
};
use crate::topo::topodecl::{TopoEdge, TopoNode};
use vstd::prelude::*;

verus! {

pub struct Topology<V, E> {
    pub(crate) g: Links,
    pub(crate) nodes: Vec<TopoNode<V>>,
    pub(crate) edges: Vec<TopoEdge<E>>,
}

impl<V, E> Topology<V, E> {
    /// The nodes, by number.
    pub closed spec fn nodes(&self) -> Seq<TopoNode<V>> {
        self.nodes@
    }

    /// The edges, by number.
    pub closed spec fn edges(&self) -> Seq<TopoEdge<E>> {
        self.edges@
    }

    /// The two nodes that each edge joins, by edge number.
    pub closed spec fn links(&self) -> Seq<(nat, nat)> {
        graph_edges(self.g)
    }

    /// The graph and what the nodes and edges carry fit together: there is
    /// one entry per node and per edge, and every edge joins two nodes.
    pub closed spec fn wf(&self) -> bool {
        &&& graph_nodes(self.g) == self.nodes@.len()
        &&& graph_edges(self.g).len() == self.edges@.len()
        &&& self.nodes@.len() <= GRAPH_LIMIT
        &&& self.edges@.len() <= GRAPH_LIMIT
        &&& forall|e: int|
            0 <= e < graph_edges(self.g).len() ==> (#[trigger] graph_edges(self.g)[e]).0
                < self.nodes@.len() && graph_edges(self.g)[e].1 < self.nodes@.len()
    }

    /// In a sound topology there is one link per edge, and every link
    /// joins two nodes.
    pub proof fn lemma_wf(&self)
        requires
            self.wf(),
        ensures
            self.links().len() == self.edges().len(),
            self.nodes().len() <= GRAPH_LIMIT,
            self.edges().len() <= GRAPH_LIMIT,
            forall|e: int|
                0 <= e < self.links().len() ==> (#[trigger] self.links()[e]).0 < self.nodes().len()
                    && self.links()[e].1 < self.nodes().len(),
    {
    }

    /// A topology without nodes.
    pub fn new() -> (r: Self)
        ensures
            r.wf(),
            r.nodes().len() == 0,
            r.edges().len() == 0,
    {
        Topology { g: graph_new(), nodes: Vec::new(), edges: Vec::new() }
    }

    pub fn node_count(&self) -> (r: usize)
        ensures
            r == self.nodes().len(),
    {
        self.nodes.len()
    }

    pub fn edge_count(&self) -> (r: usize)
        ensures
            r == self.edges().len(),
    {
        self.edges.len()
    }

    /// The node with the number `idx`.
    pub fn node(&self, idx: usize) -> (r: &TopoNode<V>)
        requires
            idx < self.nodes().len(),
        ensures
            *r == self.nodes()[idx as int],
    {
        &self.nodes[idx]
    }

    /// The edge with the number `idx`.
    pub fn edge(&self, idx: usize) -> (r: &TopoEdge<E>)
        requires
            idx < self.edges().len(),
        ensures
            *r == self.edges()[idx as int],
    {
        &self.edges[idx]
    }

    /// The two nodes that the edge with the number `idx` joins.
    pub fn edge_endpoints(&self, idx: usize) -> (r: (usize, usize))
        requires
            self.wf(),
            idx < self.edges().len(),
        ensures
            r.0 == self.links()[idx as int].0,
            r.1 == self.links()[idx as int].1,
            r.0 < self.nodes().len(),
            r.1 < self.nodes().len(),
    {
        let ends = graph_edge_endpoints(&self.g, idx);
        ends.unwrap()
    }

    /// How many edges touch the node `idx`.
    pub fn degree_of(&self, idx: usize) -> (r: usize)
        requires
            self.wf(),
            idx < self.nodes().len(),
        ensures
            r == degree(self.links(), idx as nat),
    {
        graph_degree(&self.g, idx)
    }

    /// Add a node that carries `data`. It gets the next number.
    pub fn add_node(&mut self, data: V)
        requires
            old(self).wf(),
            old(self).nodes().len() < GRAPH_LIMIT,
        ensures
            final(self).wf(),
            final(self).nodes() == old(self).nodes().push(TopoNode { component_id: None, data }),
            final(self).edges() == old(self).edges(),
            final(self).links() == old(self).links(),
    {
        let node = TopoNode { component_id: None, data };
        let _ = graph_add_node(&mut self.g);
        self.nodes.push(node);
    }

    /// Add an edge between the nodes `from` and `to` that carries `data`.
    /// It gets the next number.
    pub fn add_edge(&mut self, from: usize, to: usize, data: E)
        requires
            old(self).wf(),
            from < old(self).nodes().len(),
            to < old(self).nodes().len(),
            old(self).edges().len() < GRAPH_LIMIT,
        ensures
            final(self).wf(),
            final(self).nodes() == old(self).nodes(),
            final(self).edges() == old(self).edges().push(TopoEdge { channle_id: None, data }),
            final(self).links() == old(self).links().push((from as nat, to as nat)),
    {
        let edge = TopoEdge { channle_id: None, data };
        let _ = graph_add_edge(&mut self.g, from, to);
        self.edges.push(edge);
    }

    /// What the node `idx` carries, to be changed in place.
    pub fn node_data_mut(&mut self, idx: usize) -> (r: &mut V)
        requires
            old(self).wf(),
            idx < old(self).nodes().len(),
        ensures
            *r == old(self).nodes()[idx as int].data,
            final(self).wf(),
            final(self).nodes() == old(self).nodes().update(
                idx as int,
                TopoNode {
                    component_id: old(self).nodes()[idx as int].component_id,
                    data: *final(r),
                },
            ),
            final(self).edges() == old(self).edges(),
            final(self).links() == old(self).links(),
    {
        &mut self.nodes[idx].data
    }

    /// Note the component that was built for the node `idx`.
    pub fn set_component(&mut self, idx: usize, id: ComponentId)
        requires
            old(self).wf(),
            idx < old(self).nodes().len(),
        ensures
            final(self).wf(),
            final(self).nodes().len() == old(self).nodes().len(),
            final(self).nodes()[idx as int].component_id == Some(id),
            final(self).nodes()[idx as int].data == old(self).nodes()[idx as int].data,
            forall|j: int|
                0 <= j < old(self).nodes().len() && j != idx ==> (#[trigger] final(self).nodes()[j])
                    == old(self).nodes()[j],
            final(self).edges() == old(self).edges(),
            final(self).links() == old(self).links(),
    {
        self.nodes[idx].component_id = Some(id);
    }

    /// Note the channel that was built for the edge `idx`.
    pub fn set_channel(&mut self, idx: usize, id: ChannelId)
        requires
            old(self).wf(),
            idx < old(self).edges().len(),
        ensures
            final(self).wf(),
            final(self).edges().len() == old(self).edges().len(),
            final(self).edges()[idx as int].channle_id == Some(id),
            final(self).edges()[idx as int].data == old(self).edges()[idx as int].data,
            forall|j: int|
                0 <= j < old(self).edges().len() && j != idx ==> (#[trigger] final(self).edges()[j])
                    == old(self).edges()[j],
            final(self).nodes() == old(self).nodes(),
            final(self).links() == old(self).links(),
    {
        self.edges[idx].channle_id = Some(id);
    }

    /// Whether some edge joins the nodes `a` and `b`.
    pub open spec fn has_link(&self, a: nat, b: nat) -> bool {
        exists|e: int| 0 <= e < self.links().len() && joins(#[trigger] self.links()[e], a, b)
    }

    /// Whether some edge joins the nodes `a` and `b`.
    pub fn joined(&self, a: usize, b: usize) -> (r: bool)
        requires
            self.wf(),
            a < self.nodes().len(),
            b < self.nodes().len(),
        ensures
            r == self.has_link(a as nat, b as nat),
    {
        let found = graph_find_edge(&self.g, a, b);
        proof {
            match found {
                Some(e) => {
                    assert(joins(self.links()[e as int], a as nat, b as nat));
                },
                None => {},
            }
        }
        found.is_some()
    }

    /// Remove every edge. The nodes stay.
    pub fn clear_edges(&mut self)
        requires
            old(self).wf(),
        ensures
            final(self).wf(),
            final(self).nodes() == old(self).nodes(),
            final(self).edges().len() == 0,
            final(self).links().len() == 0,
    {
        graph_clear_edges(&mut self.g);
        self.edges.clear();
    }

    /// The number of connected components.
    pub fn connected_components(&self) -> (r: usize)
        requires
            self.wf(),
        ensures
            r == components_of(self.nodes().len(), self.links()),
    {
        graph_connected_components(&self.g)
    }
}

} // verus!
