//! Generates topologies: a number of nodes, and the edges that a strategy
//! chooses.

use crate::topo::graph::{components_of, GRAPH_LIMIT};
use crate::topo::topo::Topology;
use vstd::prelude::*;

verus! {

/// A strategy that chooses the edges of a topology.
pub trait EdgesGenerator: Sized {
    /// What the strategy requires of its own state.
    spec fn inv(&self) -> bool;

    /// The number of nodes that the strategy is made for.
    spec fn node_count(&self) -> nat;

    /// What `generate_edges` does: it turns the strategy `pre` into
    /// `post` and the topology `before` into `after`, and reports
    /// `complete`.
    spec fn edges_effect(
        pre: &Self,
        post: &Self,
        before: &Topology<(), ()>,
        after: &Topology<(), ()>,
        complete: bool,
    ) -> bool;

    fn estimated_edges_count(&mut self) -> (r: usize)
        requires
            old(self).inv(),
        ensures
            final(self).inv(),
            final(self).node_count() == old(self).node_count(),
    ;

    /// Add edges to `g`, which has the nodes and no edges yet. Returns
    /// whether the strategy found all the edges that it wanted.
    fn generate_edges(&mut self, g: &mut Topology<(), ()>) -> (r: bool)
        requires
            old(self).inv(),
            old(g).wf(),
            old(g).nodes().len() == old(self).node_count(),
            old(g).edges().len() == 0,
        ensures
            final(self).inv(),
            final(self).node_count() == old(self).node_count(),
            final(g).wf(),
            final(g).nodes() == old(g).nodes(),
            Self::edges_effect(old(self), final(self), old(g), final(g), r),
    ;
}

/// How often `try_build_connected_network` lets the strategy choose.
pub const MAX_ITER: usize = 10;

/// The strategy `pre` chose the edges of a topology of `nodes` nodes: it
/// became `post`, the topology became `g`, and `complete` says whether the
/// strategy found all the edges that it wanted.
pub open spec fn chose<S: EdgesGenerator>(
    pre: &S,
    post: &S,
    nodes: nat,
    g: &Topology<(), ()>,
    complete: bool,
) -> bool {
    exists|bare: Topology<(), ()>|
        bare.wf() && bare.edges().len() == 0 && bare.nodes().len() == nodes && bare.nodes()
            == g.nodes() && #[trigger] S::edges_effect(pre, post, &bare, g, complete)
}

/// Whether a choice is kept: the strategy found all its edges, and the
/// topology is connected.
pub open spec fn kept(g: &Topology<(), ()>, complete: bool) -> bool {
    complete && components_of(g.nodes().len(), g.links()) == 1
}

/// `states` are the states that a strategy went through while it chose
/// `choices` one after the other, none of which was kept.
pub open spec fn dropped_trace<S: EdgesGenerator>(
    states: Seq<S>,
    choices: Seq<(Topology<(), ()>, bool)>,
    nodes: nat,
) -> bool {
    &&& states.len() == choices.len() + 1
    &&& forall|k: int|
        0 <= k < choices.len() ==> chose(
            &states[k],
            &states[k + 1],
            nodes,
            &(#[trigger] choices[k]).0,
            choices[k].1,
        ) && !kept(&choices[k].0, choices[k].1)
}

/// The strategy chose `rounds` times in a row, no choice was kept, and
/// the strategy is then `last`.
pub open spec fn dropped<S: EdgesGenerator>(last: &S, nodes: nat, rounds: nat) -> bool {
    exists|states: Seq<S>, choices: Seq<(Topology<(), ()>, bool)>|
        #[trigger] dropped_trace(states, choices, nodes) && choices.len() == rounds
            && states[rounds as int] == *last
}

/// After fewer than `MAX_ITER` choices that were not kept, the strategy
/// chose `g`, and is then `last`.
pub open spec fn found<S: EdgesGenerator>(last: &S, nodes: nat, g: &Topology<(), ()>) -> bool {
    exists|chooser: S, rounds: nat|
        rounds < MAX_ITER && #[trigger] dropped(&chooser, nodes, rounds) && chose(
            &chooser,
            last,
            nodes,
            g,
            true,
        )
}

pub struct TopologyGenerator<EdgesGeneratorT: EdgesGenerator> {
    edge_strategy: EdgesGeneratorT,
    num_nodes: usize,
}

impl<EdgesGeneratorT: EdgesGenerator> TopologyGenerator<EdgesGeneratorT> {
    /// The strategy.
    pub closed spec fn strategy(&self) -> EdgesGeneratorT {
        self.edge_strategy
    }

    /// The number of nodes of the topologies.
    pub closed spec fn nodes(&self) -> nat {
        self.num_nodes as nat
    }

    /// The strategy is sound and made for the number of nodes.
    pub open spec fn wf(&self) -> bool {
        &&& self.strategy().inv()
        &&& self.strategy().node_count() == self.nodes()
        &&& self.nodes() <= GRAPH_LIMIT
    }

    pub fn new(num_nodes: usize, edge_strategy: EdgesGeneratorT) -> (r: Self)
        ensures
            r.strategy() == edge_strategy,
            r.nodes() == num_nodes,
    {
        TopologyGenerator { edge_strategy, num_nodes }
    }

    /// A topology with the nodes and no edges.
    fn generate_nodes(&self) -> (g: Topology<(), ()>)
        requires
            self.nodes() <= GRAPH_LIMIT,
        ensures
            g.wf(),
            g.nodes().len() == self.nodes(),
            g.edges().len() == 0,
    {
        let mut g: Topology<(), ()> = Topology::new();
        let mut i: usize = 0;
        while i < self.num_nodes
            invariant
                i <= self.num_nodes,
                self.num_nodes <= GRAPH_LIMIT,
                g.wf(),
                g.nodes().len() == i,
                g.edges().len() == 0,
            decreases self.num_nodes - i,
        {
            g.add_node(());
            i += 1;
        }
        g
    }

    /// Let the strategy choose up to `MAX_ITER` times, and return the
    /// first choice that is kept; none, where `MAX_ITER` choices were made
    /// and none was kept.
    pub fn try_build_connected_network(&mut self) -> (r: Option<Topology<(), ()>>)
        requires
            old(self).wf(),
        ensures
            final(self).wf(),
            final(self).nodes() == old(self).nodes(),
            match r {
                Some(g) => g.wf() && g.nodes().len() == old(self).nodes() && kept(&g, true)
                    && found(&final(self).strategy(), old(self).nodes(), &g),
                None => dropped(&final(self).strategy(), old(self).nodes(), MAX_ITER as nat),
            },
    {
        let _ = self.edge_strategy.estimated_edges_count();
        let mut g = self.generate_nodes();
        let mut round: usize = 0;
        let ghost nodes = self.nodes();
        let ghost mut states: Seq<EdgesGeneratorT> = seq![self.edge_strategy];
        let ghost mut choices: Seq<(Topology<(), ()>, bool)> = Seq::empty();
        while round < MAX_ITER
            invariant
                round <= MAX_ITER,
                self.wf(),
                self.nodes() == old(self).nodes(),
                nodes == self.nodes(),
                g.wf(),
                g.nodes().len() == self.nodes(),
                g.edges().len() == 0,
                dropped_trace(states, choices, nodes),
                choices.len() == round,
                states[round as int] == self.strategy(),
            decreases MAX_ITER - round,
        {
            let ghost chooser = self.edge_strategy;
            let ghost bare = g;
            let complete = self.edge_strategy.generate_edges(&mut g);
            proof {
                assert(bare.wf() && bare.edges().len() == 0 && bare.nodes().len() == nodes
                    && bare.nodes() == g.nodes() && EdgesGeneratorT::edges_effect(
                    &chooser,
                    &self.strategy(),
                    &bare,
                    &g,
                    complete,
                ));
                assert(chose(&chooser, &self.strategy(), nodes, &g, complete));
            }
            if complete && g.connected_components() == 1 {
                proof {
                    assert(dropped(&chooser, nodes, round as nat));
                }
                return Some(g);
            }
            proof {
                let longer = states.push(self.strategy());
                let more = choices.push((g, complete));
                assert forall|k: int| 0 <= k < more.len() implies chose(
                    &longer[k],
                    &longer[k + 1],
                    nodes,
                    &(#[trigger] more[k]).0,
                    more[k].1,
                ) && !kept(&more[k].0, more[k].1) by {
                    if k < choices.len() {
                        assert(more[k] == choices[k]);
                        assert(longer[k] == states[k] && longer[k + 1] == states[k + 1]);
                    } else {
                        assert(more[k] == (g, complete));
                        assert(longer[k] == chooser && longer[k + 1] == self.strategy());
                    }
                }
                states = longer;
                choices = more;
            }
            g.clear_edges();
            round += 1;
        }
        proof {
            assert(dropped(&self.strategy(), nodes, MAX_ITER as nat));
        }
        None
    }

    /// Let the strategy choose once. Returns the topology, and whether the
    /// strategy found all the edges that it wanted.
    pub fn build_network(&mut self) -> (r: (Topology<(), ()>, bool))
        requires
            old(self).wf(),
        ensures
            final(self).wf(),
            final(self).nodes() == old(self).nodes(),
            r.0.wf(),
            r.0.nodes().len() == old(self).nodes(),
            exists|chooser: EdgesGeneratorT, bare: Topology<(), ()>|
                bare.wf() && bare.edges().len() == 0 && bare.nodes() == r.0.nodes()
                    && #[trigger] EdgesGeneratorT::edges_effect(
                    &chooser,
                    &final(self).strategy(),
                    &bare,
                    &r.0,
                    r.1,
                ),
    {
        let _ = self.edge_strategy.estimated_edges_count();
        let mut g = self.generate_nodes();
        let ghost chooser = self.edge_strategy;
        let ghost bare = g;
        let complete = self.edge_strategy.generate_edges(&mut g);
        proof {
            assert(bare.wf() && bare.edges().len() == 0 && bare.nodes() == g.nodes()
                && EdgesGeneratorT::edges_effect(&chooser, &self.strategy(), &bare, &g, complete));
        }
        let r = (g, complete);
        proof {
            assert(r.0 == g && r.1 == complete);
        }
        r
    }
}

} // verus!
