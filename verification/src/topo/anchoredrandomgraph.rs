//! A strategy that chooses edges at random: first every node is given a
//! minimum number of edges, then edges are added anywhere until there are
//! as many as asked for. No edge joins a node to itself, and no two edges
//! join the same pair of nodes.

use crate::topo::graph::{degree, joins, touches, GRAPH_LIMIT};
use crate::topo::topo::Topology;
use crate::topo::topogen::EdgesGenerator;
use crate::util::random::random_below;
use vstd::prelude::*;

verus! {

/// No edge joins a node to itself, and no two edges join the same pair of
/// nodes.
pub open spec fn simple(links: Seq<(nat, nat)>) -> bool {
    &&& forall|e: int| 0 <= e < links.len() ==> (#[trigger] links[e]).0 != links[e].1
    &&& forall|e: int, f: int|
        0 <= e < f < links.len() ==> !joins(#[trigger] links[f], (#[trigger] links[e]).0, links[e].1)
}

/// Whether the node `a` can be joined to the node `b` by one more edge.
pub open spec fn can_join(g: &Topology<(), ()>, a: nat, b: nat) -> bool {
    a != b && !g.has_link(a, b)
}

/// The node `a` is joined to every other node.
pub open spec fn saturated(g: &Topology<(), ()>, a: nat) -> bool {
    forall|b: nat| b < g.nodes().len() ==> !#[trigger] can_join(g, a, b)
}

/// The graph falls short of `min_degree` edges at every node and
/// `edges_wanted` edges in all, and cannot be helped: a node that lacks
/// edges is joined to every other node already, or edges are missing while
/// every node is joined to every other, or the graph holds as many edges
/// as a graph can.
pub open spec fn stuck(g: &Topology<(), ()>, min_degree: nat, edges_wanted: nat) -> bool {
    ||| exists|a: nat|
        a < g.nodes().len() && degree(g.links(), a) < min_degree && #[trigger] saturated(g, a)
    ||| g.edges().len() < edges_wanted && forall|a: nat|
        a < g.nodes().len() ==> #[trigger] saturated(g, a)
    ||| g.edges().len() >= GRAPH_LIMIT
}

/// One more edge adds one to the degree of the nodes that it touches and
/// leaves the degree of the others alone.
pub proof fn lemma_degree_push(links: Seq<(nat, nat)>, edge: (nat, nat), a: nat)
    ensures
        degree(links.push(edge), a) == degree(links, a) + if touches(edge, a) {
            1nat
        } else {
            0nat
        },
{
    assert(links.push(edge).drop_last() =~= links);
}

/// An edge between two nodes that no edge joins yet keeps a graph simple.
pub proof fn lemma_simple_push(links: Seq<(nat, nat)>, a: nat, b: nat)
    requires
        simple(links),
        a != b,
        forall|e: int| 0 <= e < links.len() ==> !joins(#[trigger] links[e], a, b),
    ensures
        simple(links.push((a, b))),
{
    let after = links.push((a, b));
    assert forall|e: int, f: int| 0 <= e < f < after.len() implies !joins(
        #[trigger] after[f],
        (#[trigger] after[e]).0,
        after[e].1,
    ) by {
        if f < links.len() {
            assert(after[e] == links[e] && after[f] == links[f]);
        } else {
            assert(after[e] == links[e]);
        }
    }
}

pub struct AnchoredRandomGraphGen {
    num_nodes: usize,
    minimum_degree: usize,
    num_edges: usize,
}

impl AnchoredRandomGraphGen {
    pub closed spec fn nodes(&self) -> nat {
        self.num_nodes as nat
    }

    /// The least number of edges that every node is to have.
    pub closed spec fn min_degree(&self) -> nat {
        self.minimum_degree as nat
    }

    /// The least number of edges that the graph is to have.
    pub closed spec fn edges_wanted(&self) -> nat {
        self.num_edges as nat
    }

    /// The strategy for graphs of `num_nodes` nodes that are to have at
    /// least `num_edges` edges, and at least `minimum_degree` at every
    /// node.
    pub fn with_edges(num_nodes: usize, minimum_degree: usize, num_edges: usize) -> (r: Self)
        ensures
            r.nodes() == num_nodes,
            r.min_degree() == minimum_degree,
            r.edges_wanted() == num_edges,
    {
        AnchoredRandomGraphGen { num_nodes, minimum_degree, num_edges }
    }

    /// The first node at or after `start`, going round from the last node
    /// to the first, that `head` can be joined to; none, if `head` is
    /// joined to every other node.
    pub fn pick_partner(g: &Topology<(), ()>, head: usize, start: usize) -> (r: Option<usize>)
        requires
            g.wf(),
            head < g.nodes().len(),
            start < g.nodes().len(),
        ensures
            match r {
                Some(t) => {
                    &&& t < g.nodes().len()
                    &&& can_join(g, head as nat, t as nat)
                    &&& start <= t ==> forall|x: nat| start <= x < t ==> !can_join(g, head as nat, x)
                    &&& t < start ==> forall|x: nat|
                        (start <= x < g.nodes().len() || x < t) ==> !can_join(g, head as nat, x)
                },
                None => saturated(g, head as nat),
            },
    {
        let n = g.node_count();
        let mut c: usize = start;
        while c < n
            invariant
                g.wf(),
                n == g.nodes().len(),
                head < n,
                start <= c <= n,
                forall|x: nat| start <= x < c ==> !can_join(g, head as nat, x),
            decreases n - c,
        {
            if c != head && !g.joined(head, c) {
                return Some(c);
            }
            c += 1;
        }
        c = 0;
        while c < start
            invariant
                g.wf(),
                n == g.nodes().len(),
                head < n,
                c <= start < n,
                forall|x: nat| start <= x < n ==> !can_join(g, head as nat, x),
                forall|x: nat| x < c ==> !can_join(g, head as nat, x),
            decreases start - c,
        {
            if c != head && !g.joined(head, c) {
                return Some(c);
            }
            c += 1;
        }
        None
    }

    /// The first node at or after `head_start`, going round, that can be
    /// joined to another node, with the partner that `pick_partner` finds
    /// for it from `tail_start`; none, if every node is joined to every
    /// other.
    pub fn pick_pair(g: &Topology<(), ()>, head_start: usize, tail_start: usize) -> (r: Option<
        (usize, usize),
    >)
        requires
            g.wf(),
            head_start < g.nodes().len(),
            tail_start < g.nodes().len(),
        ensures
            match r {
                Some((h, t)) => {
                    &&& h < g.nodes().len()
                    &&& t < g.nodes().len()
                    &&& can_join(g, h as nat, t as nat)
                    &&& head_start <= h ==> forall|x: nat| head_start <= x < h ==> saturated(g, x)
                    &&& h < head_start ==> forall|x: nat|
                        (head_start <= x < g.nodes().len() || x < h) ==> saturated(g, x)
                },
                None => forall|x: nat| x < g.nodes().len() ==> saturated(g, x),
            },
    {
        let n = g.node_count();
        let mut h: usize = head_start;
        while h < n
            invariant
                g.wf(),
                n == g.nodes().len(),
                tail_start < n,
                head_start <= h <= n,
                forall|x: nat| head_start <= x < h ==> saturated(g, x),
            decreases n - h,
        {
            match Self::pick_partner(g, h, tail_start) {
                Some(t) => {
                    return Some((h, t));
                },
                None => {},
            }
            h += 1;
        }
        h = 0;
        while h < head_start
            invariant
                g.wf(),
                n == g.nodes().len(),
                tail_start < n,
                h <= head_start < n,
                forall|x: nat| head_start <= x < n ==> saturated(g, x),
                forall|x: nat| x < h ==> saturated(g, x),
            decreases head_start - h,
        {
            match Self::pick_partner(g, h, tail_start) {
                Some(t) => {
                    return Some((h, t));
                },
                None => {},
            }
            h += 1;
        }
        None
    }

    /// Join `a` and `b`, which no edge joins yet.
    fn join(g: &mut Topology<(), ()>, a: usize, b: usize)
        requires
            old(g).wf(),
            a < old(g).nodes().len(),
            b < old(g).nodes().len(),
            old(g).edges().len() < GRAPH_LIMIT,
            can_join(old(g), a as nat, b as nat),
            simple(old(g).links()),
        ensures
            final(g).wf(),
            final(g).nodes() == old(g).nodes(),
            final(g).links() == old(g).links().push((a as nat, b as nat)),
            final(g).edges().len() == old(g).edges().len() + 1,
            simple(final(g).links()),
            forall|x: nat| degree(final(g).links(), x) >= degree(old(g).links(), x),
            degree(final(g).links(), a as nat) == degree(old(g).links(), a as nat) + 1,
    {
        proof {
            assert forall|e: int| 0 <= e < g.links().len() implies !joins(
                #[trigger] g.links()[e],
                a as nat,
                b as nat,
            ) by {
                if joins(g.links()[e], a as nat, b as nat) {
                    assert(g.has_link(a as nat, b as nat));
                }
            }
            lemma_simple_push(g.links(), a as nat, b as nat);
            assert forall|x: nat| degree(g.links().push((a as nat, b as nat)), x) >= degree(
                g.links(),
                x,
            ) by {
                lemma_degree_push(g.links(), (a as nat, b as nat), x);
            }
            lemma_degree_push(g.links(), (a as nat, b as nat), a as nat);
        }
        g.add_edge(a, b, ());
    }

    /// Give the node `head` edges to nodes drawn at random until it has
    /// the minimum degree. Returns whether it has.
    fn anchor(&self, g: &mut Topology<(), ()>, head: usize) -> (r: bool)
        requires
            old(g).wf(),
            head < old(g).nodes().len(),
            simple(old(g).links()),
        ensures
            final(g).wf(),
            final(g).nodes() == old(g).nodes(),
            simple(final(g).links()),
            final(g).edges().len() >= old(g).edges().len(),
            forall|x: nat| degree(final(g).links(), x) >= degree(old(g).links(), x),
            r ==> degree(final(g).links(), head as nat) >= self.min_degree(),
            !r ==> stuck(final(g), self.min_degree(), self.edges_wanted()),
    {
        let n = g.node_count();
        while g.degree_of(head) < self.minimum_degree
            invariant
                g.wf(),
                n == g.nodes().len(),
                head < n,
                g.nodes() == old(g).nodes(),
                simple(g.links()),
                g.edges().len() >= old(g).edges().len(),
                forall|x: nat| degree(g.links(), x) >= degree(old(g).links(), x),
            decreases self.minimum_degree - degree(g.links(), head as nat),
        {
            if g.edge_count() >= GRAPH_LIMIT {
                return false;
            }
            let start = random_below(n);
            match Self::pick_partner(g, head, start) {
                Some(tail) => {
                    Self::join(g, head, tail);
                },
                None => {
                    proof {
                        assert(saturated(g, head as nat));
                    }
                    return false;
                },
            }
        }
        true
    }
}

impl EdgesGenerator for AnchoredRandomGraphGen {
    open spec fn inv(&self) -> bool {
        true
    }

    open spec fn node_count(&self) -> nat {
        self.nodes()
    }

    /// Where all went well, the graph is simple, every node has the
    /// minimum degree, and there are at least as many edges as were asked
    /// for. It goes wrong only where the graph falls short and cannot be
    /// helped.
    open spec fn edges_effect(
        pre: &Self,
        post: &Self,
        before: &Topology<(), ()>,
        after: &Topology<(), ()>,
        complete: bool,
    ) -> bool {
        &&& *post == *pre
        &&& simple(after.links())
        &&& complete ==> {
            &&& after.edges().len() >= pre.edges_wanted()
            &&& forall|a: nat|
                a < after.nodes().len() ==> #[trigger] degree(after.links(), a) >= pre.min_degree()
        }
        &&& !complete ==> stuck(after, pre.min_degree(), pre.edges_wanted())
    }

    fn estimated_edges_count(&mut self) -> (r: usize)
        ensures
            *final(self) == *old(self),
            r == old(self).edges_wanted(),
    {
        self.num_edges
    }

    fn generate_edges(&mut self, g: &mut Topology<(), ()>) -> (r: bool) {
        let n = g.node_count();
        proof {
            g.lemma_wf();
        }
        // every node gets its minimum degree
        let mut head: usize = 0;
        while head < n
            invariant
                head <= n,
                n == g.nodes().len(),
                g.wf(),
                g.nodes() == old(g).nodes(),
                simple(g.links()),
                *self == *old(self),
                forall|a: nat| a < head ==> #[trigger] degree(g.links(), a) >= self.min_degree(),
            decreases n - head,
        {
            let ghost before = g.links();
            if !self.anchor(g, head) {
                return false;
            }
            proof {
                assert forall|a: nat| a < head + 1 implies #[trigger] degree(g.links(), a)
                    >= self.min_degree() by {
                    assert(degree(g.links(), a) >= degree(before, a));
                }
            }
            head += 1;
        }
        // the rest of the edges go anywhere
        while g.edge_count() < self.num_edges
            invariant
                n == g.nodes().len(),
                g.wf(),
                g.nodes() == old(g).nodes(),
                simple(g.links()),
                *self == *old(self),
                forall|a: nat| a < n ==> #[trigger] degree(g.links(), a) >= self.min_degree(),
            decreases self.num_edges - g.edges().len(),
        {
            if n == 0 || g.edge_count() >= GRAPH_LIMIT {
                return false;
            }
            let head_start = random_below(n);
            let tail_start = random_below(n);
            let ghost before = g.links();
            match Self::pick_pair(g, head_start, tail_start) {
                Some((h, t)) => {
                    Self::join(g, h, t);
                    proof {
                        assert forall|a: nat| a < n implies #[trigger] degree(g.links(), a)
                            >= self.min_degree() by {
                            assert(degree(g.links(), a) >= degree(before, a));
                        }
                    }
                },
                None => {
                    return false;
                },
            }
        }
        true
    }
}

} // verus!
