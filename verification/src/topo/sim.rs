//! Builds the components and channels of a run from a topology.

use crate::channel::{ChannelBuilder, ChannelTrait};
use crate::component::{Component, ComponentBuilder};
use crate::keys::ComponentId;
use crate::sim::{Phase, Simulation};
use crate::topo::topo::Topology;
use vstd::prelude::*;

verus! {

/// A builder that is told, before each component or channel that it is to
/// make, what the node or edge carries.
pub trait FromGraphBuilder: Sized {
    type Node;

    type Edge;

    /// Whether the builder has been told of a node.
    spec fn configured(&self) -> bool;

    /// What `node_cfg` does: it turns `pre` into `post`.
    spec fn node_effect(pre: &Self, post: &Self, node: &Self::Node) -> bool;

    /// What `edge_cfg` does.
    spec fn edge_effect(pre: &Self, post: &Self, edge: &Self::Edge) -> bool;

    fn node_cfg(&mut self, node: &Self::Node) -> (r: &mut Self)
        ensures
            r.configured(),
            Self::node_effect(old(self), r, node),
            *final(self) == *final(r),
    ;

    fn edge_cfg(&mut self, edge: &Self::Edge) -> (r: &mut Self)
        ensures
            Self::edge_effect(old(self), r, edge),
            *final(self) == *final(r),
    ;
}

/// The builder `maker` was told of `node` and made the component for it,
/// which was added to `pre` and gave `post`; the builder is `made` since.
pub open spec fn node_added<E, M, C: Component<E, M>, Ch: ChannelTrait, NB>(
    pre: &Simulation<E, M, C, Ch>,
    post: &Simulation<E, M, C, Ch>,
    maker: &NB,
    made: &NB,
    node: &NB::Node,
) -> bool where NB: ComponentBuilder<E, M, C = C> + FromGraphBuilder {
    exists|told: NB|
        #[trigger] NB::node_effect(maker, &told, node) && Simulation::component_added(
            pre,
            post,
            &told,
            made,
        )
}

/// The builder `maker` was told of `edge` and made the channel for it
/// between `left` and `right`, which was added to `pre` and gave `post`;
/// the builder is `made` since.
pub open spec fn edge_added<E, M, C: Component<E, M>, Ch: ChannelTrait, NB>(
    pre: &Simulation<E, M, C, Ch>,
    post: &Simulation<E, M, C, Ch>,
    maker: &NB,
    made: &NB,
    edge: &NB::Edge,
    left: ComponentId,
    right: ComponentId,
) -> bool where NB: ChannelBuilder<C = Ch> + FromGraphBuilder {
    NB::edge_effect(maker, made, edge) && Simulation::channel_added(pre, post, made, left, right)
}

/// `sims` and `makers` are the states that a run and a builder went
/// through while the nodes and then the edges of a topology were added
/// to the run, which had `base` components before.
pub open spec fn build_trace<E, M, C: Component<E, M>, Ch: ChannelTrait, NB>(
    sims: Seq<Simulation<E, M, C, Ch>>,
    makers: Seq<NB>,
    nodes: Seq<NB::Node>,
    edges: Seq<NB::Edge>,
    links: Seq<(nat, nat)>,
    base: nat,
) -> bool where NB: ComponentBuilder<E, M, C = C> + ChannelBuilder<C = Ch> + FromGraphBuilder {
    &&& sims.len() == nodes.len() + edges.len() + 1
    &&& makers.len() == sims.len()
    &&& links.len() == edges.len()
    &&& forall|i: int|
        0 <= i < nodes.len() ==> node_added(
            #[trigger] &sims[i],
            &sims[i + 1],
            &makers[i],
            &makers[i + 1],
            &nodes[i],
        )
    &&& forall|j: int|
        0 <= j < edges.len() ==> edge_added(
            #[trigger] &sims[nodes.len() + j],
            &sims[nodes.len() + j + 1],
            &makers[nodes.len() + j],
            &makers[nodes.len() + j + 1],
            &edges[j],
            ComponentId::of(base + links[j].0),
            ComponentId::of(base + links[j].1),
        )
}

/// What the nodes carry.
pub open spec fn node_data<V, D>(topo: Topology<V, D>) -> Seq<V> {
    Seq::new(topo.nodes().len(), |i: int| topo.nodes()[i].data)
}

/// What the edges carry.
pub open spec fn edge_data<V, D>(topo: Topology<V, D>) -> Seq<D> {
    Seq::new(topo.edges().len(), |j: int| topo.edges()[j].data)
}

/// The nodes and then the edges of `topo` were added to the run `pre` by
/// the builder `maker`, which gave `post`; the builder is `made` since.
pub open spec fn built_from<E, M, C: Component<E, M>, Ch: ChannelTrait, NB>(
    pre: &Simulation<E, M, C, Ch>,
    post: &Simulation<E, M, C, Ch>,
    maker: &NB,
    made: &NB,
    topo: Topology<NB::Node, NB::Edge>,
) -> bool where NB: ComponentBuilder<E, M, C = C> + ChannelBuilder<C = Ch> + FromGraphBuilder {
    exists|sims: Seq<Simulation<E, M, C, Ch>>, makers: Seq<NB>|
        #[trigger] build_trace(
            sims,
            makers,
            node_data(topo),
            edge_data(topo),
            topo.links(),
            pre.components().len(),
        ) && sims[0] == *pre && makers[0] == *maker && sims[sims.len() - 1] == *post
            && makers[makers.len() - 1] == *made
}

impl<E, M, C: Component<E, M>, Ch: ChannelTrait> Simulation<E, M, C, Ch> {
    /// Add one component per node and one channel per edge of `topo`, in
    /// the order of their numbers: the node `i` becomes the component
    /// behind the ones that were there already, at position `i`, and each
    /// edge becomes a channel between the components of its two nodes.
    /// Returns the topology with the identifiers noted in it.
    pub fn build_from_topo<V, D, NB>(&mut self, topo: Topology<V, D>, builder: &mut NB) -> (r:
        Topology<V, D>) where
        NB: ComponentBuilder<E, M, C = C> + ChannelBuilder<C = Ch> + FromGraphBuilder<
            Node = V,
            Edge = D,
        >,

        requires
            old(self).wf(),
            old(self).phase() == Phase::Building,
            topo.wf(),
            old(self).components().len() + topo.nodes().len() <= usize::MAX,
            old(self).channels().len() + topo.edges().len() <= usize::MAX,
            forall|b: NB| #[trigger] b.configured() ==> b.ready(),
        ensures
            final(self).wf(),
            final(self).phase() == Phase::Building,
            built_from(old(self), final(self), old(builder), final(builder), topo),
            final(self).sched() == old(self).sched(),
            final(self).dispatched() == old(self).dispatched(),
            final(self).components().len() == old(self).components().len() + topo.nodes().len(),
            final(self).channels().len() == old(self).channels().len() + topo.edges().len(),
            forall|i: int|
                0 <= i < old(self).components().len() ==> (#[trigger] final(self).components()[i])
                    == old(self).components()[i],
            forall|j: int|
                0 <= j < old(self).channels().len() ==> (#[trigger] final(self).channels()[j])
                    == old(self).channels()[j],
            forall|j: int|
                0 <= j < topo.edges().len() ==> {
                    let ch = #[trigger] final(self).channels()[old(self).channels().len() + j];
                    &&& ch.left().idx() == old(self).components().len() + topo.links()[j].0
                    &&& ch.right().idx() == old(self).components().len() + topo.links()[j].1
                },
            r.wf(),
            r.links() == topo.links(),
            r.nodes().len() == topo.nodes().len(),
            r.edges().len() == topo.edges().len(),
            forall|i: int|
                0 <= i < topo.nodes().len() ==> (#[trigger] r.nodes()[i]).data == topo.nodes()[i].data
                    && r.nodes()[i].component_id is Some && r.nodes()[i].component_id.unwrap().idx()
                    == old(self).components().len() + i,
            forall|j: int|
                0 <= j < topo.edges().len() ==> (#[trigger] r.edges()[j]).data == topo.edges()[j].data
                    && r.edges()[j].channle_id is Some && r.edges()[j].channle_id.unwrap().idx()
                    == old(self).channels().len() + j,
    {
        let mut topo = topo;
        let ghost given = topo;
        let ghost base = old(self).components().len();
        let ghost chan_base = old(self).channels().len();
        let ghost nodes = node_data(given);
        let ghost edges = edge_data(given);
        let ghost mut sims: Seq<Simulation<E, M, C, Ch>> = seq![*self];
        let ghost mut makers: Seq<NB> = seq![*builder];
        let n = topo.node_count();
        let mut i: usize = 0;
        while i < n
            invariant
                nodes == node_data(given),
                sims.len() == i + 1,
                makers.len() == i + 1,
                sims[0] == *old(self),
                makers[0] == *old(builder),
                sims[i as int] == *self,
                makers[i as int] == *builder,
                forall|k: int|
                    0 <= k < i ==> node_added(
                        #[trigger] &sims[k],
                        &sims[k + 1],
                        &makers[k],
                        &makers[k + 1],
                        &nodes[k],
                    ),
                i <= n,
                n == given.nodes().len(),
                base == old(self).components().len(),
                base + n <= usize::MAX,
                self.wf(),
                self.phase() == Phase::Building,
                self.sched() == old(self).sched(),
                self.dispatched() == old(self).dispatched(),
                self.channels() == old(self).channels(),
                self.components().len() == base + i,
                forall|k: int| 0 <= k < base ==> (#[trigger] self.components()[k]) == old(self).components()[k],
                topo.wf(),
                topo.links() == given.links(),
                topo.edges() == given.edges(),
                topo.nodes().len() == n,
                forall|k: int|
                    0 <= k < n ==> (#[trigger] topo.nodes()[k]).data == given.nodes()[k].data,
                forall|k: int|
                    0 <= k < i ==> (#[trigger] topo.nodes()[k]).component_id is Some
                        && topo.nodes()[k].component_id.unwrap().idx() == base + k,
                forall|b: NB| #[trigger] b.configured() ==> b.ready(),
            decreases n - i,
        {
            let ghost before = self.components();
            let ghost sim_before = *self;
            let ghost maker_before = *builder;
            let told = builder.node_cfg(&topo.node(i).data);
            let ghost maker_told = *told;
            let component_id = self.add_component(told);
            proof {
                assert(nodes[i as int] == topo.nodes()[i as int].data);
                assert(NB::node_effect(&maker_before, &maker_told, &nodes[i as int])
                    && Simulation::component_added(&sim_before, &*self, &maker_told, &*builder));
                assert(node_added(&sim_before, &*self, &maker_before, &*builder, &nodes[i as int]));
                let longer = sims.push(*self);
                let more = makers.push(*builder);
                assert forall|k: int| 0 <= k < i + 1 implies node_added(
                    #[trigger] &longer[k],
                    &longer[k + 1],
                    &more[k],
                    &more[k + 1],
                    &nodes[k],
                ) by {
                    if k < i {
                        assert(longer[k] == sims[k] && longer[k + 1] == sims[k + 1]);
                        assert(more[k] == makers[k] && more[k + 1] == makers[k + 1]);
                    }
                }
                sims = longer;
                makers = more;
            }
            proof {
                assert forall|k: int| 0 <= k < base implies (#[trigger] self.components()[k]) == old(
                    self,
                ).components()[k] by {
                    assert(self.components().drop_last()[k] == before[k]);
                }
            }
            topo.set_component(i, component_id);
            i += 1;
        }
        let m = topo.edge_count();
        let mut j: usize = 0;
        while j < m
            invariant
                nodes == node_data(given),
                edges == edge_data(given),
                nodes.len() == n,
                edges.len() == m,
                sims.len() == n + j + 1,
                makers.len() == n + j + 1,
                sims[0] == *old(self),
                makers[0] == *old(builder),
                sims[n + j] == *self,
                makers[n + j] == *builder,
                forall|k: int|
                    0 <= k < n ==> node_added(
                        #[trigger] &sims[k],
                        &sims[k + 1],
                        &makers[k],
                        &makers[k + 1],
                        &nodes[k],
                    ),
                forall|k: int|
                    0 <= k < j ==> edge_added(
                        #[trigger] &sims[n + k],
                        &sims[n + k + 1],
                        &makers[n + k],
                        &makers[n + k + 1],
                        &edges[k],
                        ComponentId::of((base + given.links()[k].0) as nat),
                        ComponentId::of((base + given.links()[k].1) as nat),
                    ),
                j <= m,
                m == given.edges().len(),
                n == given.nodes().len(),
                chan_base == old(self).channels().len(),
                chan_base + m <= usize::MAX,
                base == old(self).components().len(),
                base + n <= usize::MAX,
                self.wf(),
                self.phase() == Phase::Building,
                self.sched() == old(self).sched(),
                self.dispatched() == old(self).dispatched(),
                self.components().len() == base + n,
                self.channels().len() == chan_base + j,
                forall|k: int| 0 <= k < base ==> (#[trigger] self.components()[k]) == old(self).components()[k],
                forall|k: int|
                    0 <= k < chan_base ==> (#[trigger] self.channels()[k]) == old(self).channels()[k],
                forall|k: int|
                    0 <= k < j ==> {
                        let ch = #[trigger] self.channels()[chan_base + k];
                        &&& ch.left().idx() == base + given.links()[k].0
                        &&& ch.right().idx() == base + given.links()[k].1
                    },
                topo.wf(),
                topo.links() == given.links(),
                topo.nodes().len() == n,
                topo.edges().len() == m,
                forall|k: int|
                    0 <= k < n ==> (#[trigger] topo.nodes()[k]).data == given.nodes()[k].data
                        && topo.nodes()[k].component_id is Some
                        && topo.nodes()[k].component_id.unwrap().idx() == base + k,
                forall|k: int|
                    0 <= k < m ==> (#[trigger] topo.edges()[k]).data == given.edges()[k].data,
                forall|k: int|
                    0 <= k < j ==> (#[trigger] topo.edges()[k]).channle_id is Some
                        && topo.edges()[k].channle_id.unwrap().idx() == chan_base + k,
            decreases m - j,
        {
            let (n0, n1) = topo.edge_endpoints(j);
            let c0 = topo.node(n0).component_id.unwrap();
            let c1 = topo.node(n1).component_id.unwrap();
            let ghost before = self.channels();
            let ghost comps = self.components();
            let ghost sim_before = *self;
            let ghost maker_before = *builder;
            let told = builder.edge_cfg(&topo.edge(j).data);
            let channel_id = self.add_channel(told, c0, c1);
            proof {
                assert(edges[j as int] == topo.edges()[j as int].data);
                ComponentId::lemma_of_idx((base + given.links()[j as int].0) as nat);
                ComponentId::lemma_of_idx((base + given.links()[j as int].1) as nat);
                ComponentId::lemma_idx_injective(
                    c0,
                    ComponentId::of((base + given.links()[j as int].0) as nat),
                );
                ComponentId::lemma_idx_injective(
                    c1,
                    ComponentId::of((base + given.links()[j as int].1) as nat),
                );
                assert(edge_added(
                    &sim_before,
                    &*self,
                    &maker_before,
                    &*builder,
                    &edges[j as int],
                    c0,
                    c1,
                ));
                let longer = sims.push(*self);
                let more = makers.push(*builder);
                assert forall|k: int| 0 <= k < n implies node_added(
                    #[trigger] &longer[k],
                    &longer[k + 1],
                    &more[k],
                    &more[k + 1],
                    &nodes[k],
                ) by {
                    assert(longer[k] == sims[k] && longer[k + 1] == sims[k + 1]);
                    assert(more[k] == makers[k] && more[k + 1] == makers[k + 1]);
                }
                assert forall|k: int| 0 <= k < j + 1 implies edge_added(
                    #[trigger] &longer[n + k],
                    &longer[n + k + 1],
                    &more[n + k],
                    &more[n + k + 1],
                    &edges[k],
                    ComponentId::of((base + given.links()[k].0) as nat),
                    ComponentId::of((base + given.links()[k].1) as nat),
                ) by {
                    if k < j {
                        assert(longer[n + k] == sims[n + k] && longer[n + k + 1] == sims[n + k + 1]);
                        assert(more[n + k] == makers[n + k] && more[n + k + 1] == makers[n + k + 1]);
                    }
                }
                sims = longer;
                makers = more;
            }
            proof {
                assert forall|k: int| 0 <= k < chan_base + j implies (#[trigger] self.channels()[k])
                    == before[k] by {
                    assert(self.channels().drop_last()[k] == before[k]);
                }
                // the old components are none of the edge's ends
                assert forall|k: int| 0 <= k < base implies (#[trigger] self.components()[k]) == old(
                    self,
                ).components()[k] by {
                    assert(k != c0.idx() && k != c1.idx());
                    assert(self.components()[k] == comps[k]);
                }
                assert forall|k: int| 0 <= k < j + 1 implies {
                    let ch = #[trigger] self.channels()[chan_base + k];
                    &&& ch.left().idx() == base + given.links()[k].0
                    &&& ch.right().idx() == base + given.links()[k].1
                } by {
                    if k < j {
                        assert(self.channels()[chan_base + k] == before[chan_base + k]);
                    } else {
                        assert(self.channels()[chan_base + k] == self.channels().last());
                    }
                }
            }
            topo.set_channel(j, channel_id);
            j += 1;
        }
        proof {
            given.lemma_wf();
            assert(build_trace(sims, makers, nodes, edges, given.links(), base));
        }
        topo
    }
}

} // verus!
