//! Builds a topology node by node and edge by edge.

use crate::topo::graph::{degree, GRAPH_LIMIT};
use crate::topo::topo::Topology;
use crate::topo::topodecl::{TopoEdge, TopoNode};
use vstd::prelude::*;

verus! {

pub struct TopologyBuilder<V, E> {
    topo: Box<Topology<V, E>>,
}

impl<V, E> TopologyBuilder<V, E> {
    /// The topology built so far.
    pub closed spec fn topo(&self) -> Topology<V, E> {
        *self.topo
    }

    pub open spec fn wf(&self) -> bool {
        self.topo().wf()
    }

    pub fn new() -> (r: Self)
        ensures
            r.wf(),
            r.topo().nodes().len() == 0,
            r.topo().edges().len() == 0,
    {
        TopologyBuilder { topo: Box::new(Topology::new()) }
    }

    /// The number of nodes.
    pub fn node_count(&self) -> (r: usize)
        ensures
            r == self.topo().nodes().len(),
    {
        self.topo.node_count()
    }

    /// The number of edges.
    pub fn edge_count(&self) -> (r: usize)
        ensures
            r == self.topo().edges().len(),
    {
        self.topo.edge_count()
    }

    /// Add a node that carries `data`. It gets the next number.
    pub fn add_node(&mut self, data: V)
        requires
            old(self).wf(),
            old(self).topo().nodes().len() < GRAPH_LIMIT,
        ensures
            final(self).wf(),
            final(self).topo().nodes() == old(self).topo().nodes().push(
                TopoNode { component_id: None, data },
            ),
            final(self).topo().edges() == old(self).topo().edges(),
            final(self).topo().links() == old(self).topo().links(),
    {
        self.topo.add_node(data);
    }

    /// What the node `idx` carries.
    pub fn node_ref(&self, idx: usize) -> (r: &V)
        requires
            idx < self.topo().nodes().len(),
        ensures
            *r == self.topo().nodes()[idx as int].data,
    {
        &self.topo.node(idx).data
    }

    /// What the node `idx` carries, to be changed in place.
    pub fn node_ref_mut(&mut self, idx: usize) -> (r: &mut V)
        requires
            old(self).wf(),
            idx < old(self).topo().nodes().len(),
        ensures
            *r == old(self).topo().nodes()[idx as int].data,
            final(self).wf(),
            final(self).topo().nodes() == old(self).topo().nodes().update(
                idx as int,
                TopoNode {
                    component_id: old(self).topo().nodes()[idx as int].component_id,
                    data: *final(r),
                },
            ),
            final(self).topo().edges() == old(self).topo().edges(),
            final(self).topo().links() == old(self).topo().links(),
    {
        self.topo.node_data_mut(idx)
    }

    /// Add an edge between the nodes `from` and `to` that carries `data`.
    /// It gets the next number.
    pub fn add_edge(&mut self, from: usize, to: usize, data: E)
        requires
            old(self).wf(),
            from < old(self).topo().nodes().len(),
            to < old(self).topo().nodes().len(),
            old(self).topo().edges().len() < GRAPH_LIMIT,
        ensures
            final(self).wf(),
            final(self).topo().nodes() == old(self).topo().nodes(),
            final(self).topo().edges() == old(self).topo().edges().push(
                TopoEdge { channle_id: None, data },
            ),
            final(self).topo().links() == old(self).topo().links().push((from as nat, to as nat)),
    {
        self.topo.add_edge(from, to, data);
    }

    /// How many edges touch the node `idx`.
    pub fn count_edges(&self, idx: usize) -> (r: usize)
        requires
            self.wf(),
            idx < self.topo().nodes().len(),
        ensures
            r == degree(self.topo().links(), idx as nat),
    {
        self.topo.degree_of(idx)
    }

    pub fn build_topo(self) -> (r: Box<Topology<V, E>>)
        ensures
            *r == self.topo(),
    {
        self.topo
    }
}

} // verus!
