//! The simulation driver. It owns the components, the channels and the
//! event queue of a run, builds the topology, and dispatches the events.

use crate::channel::{channel_may_schedule, other_end, ChannelBuilder, ChannelTrait};
use crate::component::{component_may_schedule, ChannelLabel, Component, ComponentBuilder};
use crate::keys::{ChannelId, ComponentId};
use crate::scheduler::{EventType, Scheduler, SchedulerView};
use crate::simtime::{SimTime, SimTimeDelta};
use vstd::prelude::*;

verus! {

/// Where a run stands in its life: the topology is being built, events are
/// being dispatched, or the components have been told that the run is over.
#[derive(Debug, Copy, Clone, PartialEq, Eq, Structural)]
pub enum Phase {
    Building,
    Running,
    Terminated,
}

/// The two endpoints of every channel, by channel index.
pub open spec fn links_of<Ch: ChannelTrait>(chans: Seq<Ch>) -> Seq<(ComponentId, ComponentId)> {
    Seq::new(chans.len(), |j: int| (chans[j].left(), chans[j].right()))
}

/// Whether `e` can be dispatched in a run with `n` components and the
/// given links: its receiver exists, or its channel exists and has the
/// sender as an endpoint.
pub open spec fn event_ok<E, M>(
    n: nat,
    links: Seq<(ComponentId, ComponentId)>,
    e: EventType<E, M>,
) -> bool {
    match e {
        EventType::ProcessEvent(ce) => ce.receiver.idx() < n,
        EventType::MsgSendEvent(me) => me.channel.idx() < links.len() && (links[me.channel.idx() as int].0
            == me.sender || links[me.channel.idx() as int].1 == me.sender),
        EventType::MsgRcvEvent(re) => re.receiver.idx() < n,
        EventType::EndSimulation => false,
    }
}

/// `event_ok` as a condition on scheduled events.
pub open spec fn deliverable<E, M>(n: nat, links: Seq<(ComponentId, ComponentId)>) -> spec_fn(
    EventType<E, M>,
) -> bool {
    |e: EventType<E, M>| event_ok(n, links, e)
}

/// Every component is sound, carries its index as identifier, and uses
/// only channels of which it is an endpoint.
pub open spec fn nodes_ok<E, M, C: Component<E, M>>(
    comps: Seq<C>,
    links: Seq<(ComponentId, ComponentId)>,
) -> bool {
    &&& forall|i: int|
        0 <= i < comps.len() ==> (#[trigger] comps[i]).inv() && comps[i].id().idx() == i
    &&& forall|i: int, c: ChannelId|
        0 <= i < comps.len() && #[trigger] comps[i].attached().contains(c) ==> c.idx() < links.len()
            && (links[c.idx() as int].0 == comps[i].id() || links[c.idx() as int].1
            == comps[i].id())
}

/// Every channel is sound, carries its index as identifier, and connects
/// two of the `n` components.
pub open spec fn chans_ok<Ch: ChannelTrait>(chans: Seq<Ch>, n: nat) -> bool {
    forall|j: int|
        0 <= j < chans.len() ==> {
            &&& (#[trigger] chans[j]).inv()
            &&& chans[j].id().idx() == j
            &&& chans[j].left().idx() < n
            &&& chans[j].right().idx() < n
        }
}

/// The two sequences hold components with the same identifiers and the
/// same channels.
pub open spec fn same_wiring<E, M, C: Component<E, M>>(a: Seq<C>, b: Seq<C>) -> bool {
    &&& a.len() == b.len()
    &&& forall|i: int|
        0 <= i < a.len() ==> (#[trigger] a[i]).id() == b[i].id() && a[i].attached()
            == b[i].attached()
}

/// `b` is `a` but for the element at `at`.
pub open spec fn same_but<T>(a: Seq<T>, b: Seq<T>, at: int) -> bool {
    &&& a.len() == b.len()
    &&& forall|i: int| 0 <= i < a.len() && i != at ==> #[trigger] a[i] == b[i]
}

/// The component `pre` was told of the channel `id` as its left and then
/// as its right endpoint, or only as one of them, and is `post` since.
pub open spec fn attached_as<E, M, C: Component<E, M>>(
    pre: &C,
    post: &C,
    id: ChannelId,
    as_left: bool,
    as_right: bool,
) -> bool {
    if as_left && as_right {
        exists|mid: C|
            #[trigger] C::channel_effect(pre, &mid, id, ChannelLabel::Left) && C::channel_effect(
                &mid,
                post,
                id,
                ChannelLabel::Right,
            )
    } else if as_left {
        C::channel_effect(pre, post, id, ChannelLabel::Left)
    } else if as_right {
        C::channel_effect(pre, post, id, ChannelLabel::Right)
    } else {
        *post == *pre
    }
}

/// `queues` are the states that the event queue went through while the
/// first `upto` components were initialized one after the other, each
/// turning from what it is in `pre` into what it is in `post`.
pub open spec fn init_trace<E, M, C: Component<E, M>>(
    pre: Seq<C>,
    post: Seq<C>,
    upto: int,
    queues: Seq<SchedulerView<E, M>>,
) -> bool {
    &&& queues.len() == upto + 1
    &&& forall|k: int|
        0 <= k < upto ==> C::init_effect(&pre[k], &post[k], #[trigger] queues[k], queues[k + 1])
}

/// The components have been initialized one after the other, in the order
/// of their identifiers: each turned from what it is in `pre` into what it
/// is in `post`, and between them they turned the event queue `before`
/// into `after`.
pub open spec fn initialized<E, M, C: Component<E, M>>(
    pre: Seq<C>,
    post: Seq<C>,
    before: SchedulerView<E, M>,
    after: SchedulerView<E, M>,
) -> bool {
    exists|queues: Seq<SchedulerView<E, M>>|
        #[trigger] init_trace(pre, post, pre.len() as int, queues) && queues[0] == before
            && queues[pre.len() as int] == after
}

/// Events that were acceptable stay so when allowed ones join them.
pub proof fn lemma_extension_deliverable<E, M>(
    pre: SchedulerView<E, M>,
    post: SchedulerView<E, M>,
    allowed: spec_fn(EventType<E, M>) -> bool,
    n: nat,
    links: Seq<(ComponentId, ComponentId)>,
)
    requires
        pre.extended_by(post, allowed),
        forall|k: int| 0 <= k < pre.pending.len() ==> event_ok(n, links, #[trigger] pre.pending[k].event),
        forall|e: EventType<E, M>| #[trigger] allowed(e) ==> event_ok(n, links, e),
    ensures
        forall|k: int|
            0 <= k < post.pending.len() ==> event_ok(n, links, #[trigger] post.pending[k].event),
        pre.extended_by(post, deliverable(n, links)),
{
    assert forall|k: int| 0 <= k < post.pending.len() implies event_ok(
        n,
        links,
        #[trigger] post.pending[k].event,
    ) by {
        let p = post.pending[k];
        if p.seq < pre.next_seq {
            assert(pre.pending.contains(p));
            let j = choose|j: int| 0 <= j < pre.pending.len() && pre.pending[j] == p;
            assert(event_ok(n, links, pre.pending[j].event));
        } else {
            assert(allowed(p.event));
        }
    }
    assert forall|i: int|
        0 <= i < post.pending.len() && (#[trigger] post.pending[i]).seq >= pre.next_seq
            implies deliverable(n, links)(post.pending[i].event) by {
        assert(allowed(post.pending[i].event));
    }
}

pub struct Simulation<E, M, C: Component<E, M>, Ch: ChannelTrait> {
    components: Vec<C>,
    channels: Vec<Ch>,
    scheduler: Scheduler<E, M>,
    phase: Phase,
    dispatched: Ghost<nat>,
}

impl<E, M, C: Component<E, M>, Ch: ChannelTrait> Default for Simulation<E, M, C, Ch> {
    /// A run without components, channels or events, at time zero.
    fn default() -> (r: Self)
        ensures
            r.wf(),
            r.phase() == Phase::Building,
            r.components().len() == 0,
            r.channels().len() == 0,
            r.sched().pending.len() == 0,
            r.sched().now == 0,
            !r.sched().failed,
            r.dispatched() == 0,
    {
        Self::new()
    }
}

impl<E, M, C: Component<E, M>, Ch: ChannelTrait> Simulation<E, M, C, Ch> {
    /// The components, by index.
    pub closed spec fn components(&self) -> Seq<C> {
        self.components@
    }

    /// The components as they are stored.
    pub closed spec fn nodes(&self) -> Vec<C> {
        self.components
    }

    /// The channels, by index.
    pub closed spec fn channels(&self) -> Seq<Ch> {
        self.channels@
    }

    /// The event queue.
    pub closed spec fn sched(&self) -> SchedulerView<E, M> {
        self.scheduler@
    }

    pub closed spec fn phase(&self) -> Phase {
        self.phase
    }

    /// How many events have been dispatched so far.
    pub closed spec fn dispatched(&self) -> nat {
        self.dispatched@
    }

    /// The topology is consistent and every pending event can be
    /// dispatched.
    pub open spec fn wf(&self) -> bool {
        &&& nodes_ok(self.components(), links_of(self.channels()))
        &&& chans_ok(self.channels(), self.components().len())
        &&& self.sched().wf()
        &&& forall|k: int|
            0 <= k < self.sched().pending.len() ==> event_ok(
                self.components().len(),
                links_of(self.channels()),
                #[trigger] self.sched().pending[k].event,
            )
    }

    /// What the run may schedule from outside its components.
    pub open spec fn may_schedule(&self) -> spec_fn(EventType<E, M>) -> bool {
        deliverable(self.components().len(), links_of(self.channels()))
    }

    /// A run without components, channels or events, at time zero.
    pub fn new() -> (r: Self)
        ensures
            r.wf(),
            r.phase() == Phase::Building,
            r.components().len() == 0,
            r.channels().len() == 0,
            r.sched().pending.len() == 0,
            r.sched().now == 0,
            !r.sched().failed,
            r.dispatched() == 0,
    {
        let scheduler = Scheduler::new();
        proof {
            use_type_invariant(&scheduler);
            scheduler.lemma_inv_wf();
        }
        Simulation {
            components: Vec::new(),
            channels: Vec::new(),
            scheduler,
            phase: Phase::Building,
            dispatched: Ghost(0),
        }
    }

    /// The component that the builder `maker` made for the next free
    /// identifier was added to `pre`, which gave `post`; the builder is
    /// `made` since.
    pub open spec fn component_added<B: ComponentBuilder<E, M, C = C>>(
        pre: &Self,
        post: &Self,
        maker: &B,
        made: &B,
    ) -> bool {
        &&& post.wf()
        &&& post.phase() == pre.phase()
        &&& post.components().len() == pre.components().len() + 1
        &&& post.components().drop_last() == pre.components()
        &&& post.components().last().id().idx() == pre.components().len()
        &&& post.components().last().attached() == Set::<ChannelId>::empty()
        &&& B::builds(maker, made, post.components().last().id(), &post.components().last())
        &&& post.channels() == pre.channels()
        &&& post.sched() == pre.sched()
        &&& post.dispatched() == pre.dispatched()
    }

    /// The channel that `builder` made between `left` and `right` was
    /// added to `pre` and attached to both, which gave `post`.
    pub open spec fn channel_added<B: ChannelBuilder<C = Ch>>(
        pre: &Self,
        post: &Self,
        builder: &B,
        left: ComponentId,
        right: ComponentId,
    ) -> bool {
        &&& post.wf()
        &&& post.phase() == pre.phase()
        &&& post.channels().len() == pre.channels().len() + 1
        &&& post.channels().drop_last() == pre.channels()
        &&& post.channels().last().id().idx() == pre.channels().len()
        &&& post.channels().last().left() == left
        &&& post.channels().last().right() == right
        &&& builder.builds(post.channels().last().id(), left, right, &post.channels().last())
        &&& post.components().len() == pre.components().len()
        &&& forall|i: int|
            0 <= i < pre.components().len() ==> attached_as(
                &pre.components()[i],
                #[trigger] &post.components()[i],
                post.channels().last().id(),
                i == left.idx(),
                i == right.idx(),
            )
        &&& post.sched() == pre.sched()
        &&& post.dispatched() == pre.dispatched()
    }

    /// Add the component that `builder` makes for the next free
    /// identifier.
    pub fn add_component<B: ComponentBuilder<E, M, C = C>>(&mut self, builder: &mut B) -> (id:
        ComponentId)
        requires
            old(self).wf(),
            old(self).phase() == Phase::Building,
            old(builder).ready(),
        ensures
            final(self).wf(),
            final(self).phase() == Phase::Building,
            id.idx() == old(self).components().len(),
            final(self).components().len() == old(self).components().len() + 1,
            final(self).components().drop_last() == old(self).components(),
            final(self).components().last().id() == id,
            final(self).components().last().attached() == Set::<ChannelId>::empty(),
            Self::component_added(old(self), final(self), old(builder), final(builder)),
            B::builds(old(builder), final(builder), id, &final(self).components().last()),
            final(self).channels() == old(self).channels(),
            final(self).sched() == old(self).sched(),
            final(self).dispatched() == old(self).dispatched(),
    {
        let id = ComponentId::new(self.components.len());
        let c = builder.build_component(id);
        self.components.push(c);
        proof {
            assert(self.components@.drop_last() =~= old(self).components@);
            let links = links_of(self.channels());
            assert forall|i: int| 0 <= i < self.components@.len() implies (
            #[trigger] self.components@[i]).inv() && self.components@[i].id().idx() == i by {
                if i < old(self).components@.len() {
                    assert(self.components@[i] == old(self).components@[i]);
                }
            }
            assert forall|i: int, ch: ChannelId|
                0 <= i < self.components@.len() && #[trigger] self.components@[i].attached().contains(
                    ch,
                ) implies ch.idx() < links.len() && (links[ch.idx() as int].0
                == self.components@[i].id() || links[ch.idx() as int].1
                == self.components@[i].id()) by {
                if i < old(self).components@.len() {
                    assert(self.components@[i] == old(self).components@[i]);
                    assert(old(self).components@[i].attached().contains(ch));
                }
            }
        }
        id
    }

    /// Add the channel that `builder` makes between `left` and `right`,
    /// and attach it to both.
    pub fn add_channel<B: ChannelBuilder<C = Ch>>(
        &mut self,
        builder: &mut B,
        left: ComponentId,
        right: ComponentId,
    ) -> (id: ChannelId)
        requires
            old(self).wf(),
            old(self).phase() == Phase::Building,
            left.idx() < old(self).components().len(),
            right.idx() < old(self).components().len(),
        ensures
            final(self).wf(),
            final(self).phase() == Phase::Building,
            id.idx() == old(self).channels().len(),
            final(self).channels().len() == old(self).channels().len() + 1,
            final(self).channels().drop_last() == old(self).channels(),
            final(self).channels().last().id() == id,
            final(self).channels().last().left() == left,
            final(self).channels().last().right() == right,
            Self::channel_added(old(self), final(self), old(builder), left, right),
            *final(builder) == *old(builder),
            old(builder).builds(id, left, right, &final(self).channels().last()),
            final(self).components().len() == old(self).components().len(),
            forall|i: int|
                0 <= i < old(self).components().len() ==> attached_as(
                    &old(self).components()[i],
                    #[trigger] &final(self).components()[i],
                    id,
                    i == left.idx(),
                    i == right.idx(),
                ),
            forall|i: int|
                0 <= i < old(self).components().len() ==> (#[trigger] final(self).components()[i]).attached().subset_of(old(self).components()[i].attached().insert(id)),
            final(self).sched() == old(self).sched(),
            final(self).dispatched() == old(self).dispatched(),
    {
        let channel_id = ChannelId::new(self.channels.len());
        let ch = builder.build_channel(channel_id, left, right);
        self.channels.push(ch);
        let ghost links = links_of(self.channels@);
        let ghost comps0 = self.components@;
        proof {
            assert(self.channels@.drop_last() =~= old(self).channels@);
            assert forall|j: int| 0 <= j < old(self).channels@.len() implies links[j] == links_of(
                old(self).channels@,
            )[j] by {
                assert(self.channels@[j] == old(self).channels@[j]);
            }
        }
        self.components[left.as_idx()].add_channel(channel_id, ChannelLabel::Left);
        let ghost comps1 = self.components@;
        proof {
            assert(comps1[left.idx() as int].attached().subset_of(
                comps0[left.idx() as int].attached().insert(channel_id),
            ));
        }
        self.components[right.as_idx()].add_channel(channel_id, ChannelLabel::Right);
        proof {
            let comps2 = self.components@;
            assert forall|i: int| 0 <= i < comps0.len() implies attached_as(
                &comps0[i],
                #[trigger] &comps2[i],
                channel_id,
                i == left.idx(),
                i == right.idx(),
            ) by {
                if i == left.idx() && i == right.idx() {
                    assert(C::channel_effect(&comps0[i], &comps1[i], channel_id, ChannelLabel::Left)
                        && C::channel_effect(&comps1[i], &comps2[i], channel_id, ChannelLabel::Right));
                } else if i == left.idx() {
                    assert(comps2[i] == comps1[i]);
                } else if i == right.idx() {
                    assert(comps1[i] == comps0[i]);
                } else {
                    assert(comps2[i] == comps1[i]);
                    assert(comps1[i] == comps0[i]);
                }
            }
            assert forall|i: int| 0 <= i < comps2.len() implies (#[trigger] comps2[i]).attached().subset_of(
                comps0[i].attached().insert(channel_id),
            ) && comps2[i].inv() && comps2[i].id() == comps0[i].id() by {
                if i == right.idx() {
                    assert(comps2[i].attached().subset_of(comps1[i].attached().insert(channel_id)));
                    if i != left.idx() {
                        assert(comps1[i] == comps0[i]);
                    }
                } else if i == left.idx() {
                    assert(comps2[i] == comps1[i]);
                } else {
                    assert(comps2[i] == comps1[i]);
                    assert(comps1[i] == comps0[i]);
                }
            }
            assert forall|i: int, c: ChannelId|
                0 <= i < comps2.len() && #[trigger] comps2[i].attached().contains(c) implies c.idx()
                < links.len() && (links[c.idx() as int].0 == comps2[i].id() || links[c.idx() as int].1
                == comps2[i].id()) by {
                assert(comps0[i].attached().insert(channel_id).contains(c));
                if c == channel_id {
                    assert(self.channels@[channel_id.idx() as int].left() == left);
                    if !(i == left.idx() || i == right.idx()) {
                        assert(comps2[i] == comps0[i]);
                        assert(comps0[i].attached().contains(c));
                    } else {
                        assert(comps2[i].id().idx() == i);
                        if i == left.idx() {
                            ComponentId::lemma_idx_injective(comps2[i].id(), left);
                        } else {
                            ComponentId::lemma_idx_injective(comps2[i].id(), right);
                        }
                    }
                } else {
                    assert(comps0[i].attached().contains(c));
                    assert(links[c.idx() as int] == links_of(old(self).channels@)[c.idx() as int]);
                }
            }
            assert forall|j: int| 0 <= j < self.channels@.len() implies {
                &&& (#[trigger] self.channels@[j]).inv()
                &&& self.channels@[j].id().idx() == j
                &&& self.channels@[j].left().idx() < comps2.len()
                &&& self.channels@[j].right().idx() < comps2.len()
            } by {
                if j < old(self).channels@.len() {
                    assert(self.channels@[j] == old(self).channels@[j]);
                }
            }
            assert forall|k: int| 0 <= k < self.sched().pending.len() implies event_ok(
                self.components().len(),
                links,
                #[trigger] self.sched().pending[k].event,
            ) by {
                let e = self.sched().pending[k].event;
                assert(event_ok(old(self).components().len(), links_of(old(self).channels@), e));
                match e {
                    EventType::MsgSendEvent(me) => {
                        assert(links[me.channel.idx() as int] == links_of(old(self).channels@)[me.channel.idx() as int]);
                    },
                    _ => {},
                }
            }
        }
        channel_id
    }

    /// Call `init` on every component, in the order of their identifiers.
    /// This ends the building of the topology.
    pub fn call_init(&mut self)
        requires
            old(self).wf(),
            old(self).phase() == Phase::Building,
        ensures
            final(self).wf(),
            final(self).phase() == Phase::Running,
            same_wiring(old(self).components(), final(self).components()),
            final(self).channels() == old(self).channels(),
            old(self).sched().extended_by(final(self).sched(), old(self).may_schedule()),
            initialized(
                old(self).components(),
                final(self).components(),
                old(self).sched(),
                final(self).sched(),
            ),
            final(self).dispatched() == old(self).dispatched(),
    {
        let n = self.components.len();
        let ghost links = links_of(self.channels@);
        let ghost allowed = deliverable::<E, M>(n as nat, links);
        proof {
            crate::scheduler::lemma_extended_refl(self.scheduler@, allowed);
        }
        let ghost mut trace: Seq<SchedulerView<E, M>> = seq![self.scheduler@];
        let mut i: usize = 0;
        while i < n
            invariant
                i <= n,
                n == self.components@.len(),
                n == old(self).components@.len(),
                self.wf(),
                self.channels@ == old(self).channels@,
                links == links_of(self.channels@),
                allowed == deliverable::<E, M>(n as nat, links),
                init_trace(old(self).components@, self.components@, i as int, trace),
                trace[0] == old(self).scheduler@,
                trace[i as int] == self.scheduler@,
                same_wiring(old(self).components@, self.components@),
                old(self).scheduler@.extended_by(self.scheduler@, allowed),
                forall|k: int| i <= k < n ==> #[trigger] self.components@[k] == old(self).components@[k],
                self.phase == old(self).phase,
                self.dispatched == old(self).dispatched,
            decreases n - i,
        {
            let ghost before = self.components@;
            let ghost sched_before = self.scheduler@;
            self.components[i].init(&mut self.scheduler);
            proof {
                use_type_invariant(&self.scheduler);
                self.scheduler.lemma_inv_wf();
                assert(before[i as int] == old(self).components@[i as int]);
                let longer = trace.push(self.scheduler@);
                assert forall|k: int| 0 <= k < i + 1 implies C::init_effect(
                    &old(self).components@[k],
                    &self.components@[k],
                    #[trigger] longer[k],
                    longer[k + 1],
                ) by {
                    if k < i {
                        assert(self.components@[k] == before[k]);
                        assert(longer[k] == trace[k] && longer[k + 1] == trace[k + 1]);
                    }
                }
                trace = longer;
                self.lemma_component_stepped(before, sched_before, i as int);
                crate::scheduler::lemma_extended_trans(
                    old(self).scheduler@,
                    sched_before,
                    self.scheduler@,
                    allowed,
                );
            }
            i += 1;
        }
        proof {
            assert(init_trace(old(self).components@, self.components@, n as int, trace));
        }
        self.phase = Phase::Running;
    }

    /// After the component at `at` has handled something, the run is still
    /// well formed.
    proof fn lemma_component_stepped(&self, before: Seq<C>, sched_before: SchedulerView<E, M>, at: int)
        requires
            0 <= at < before.len(),
            same_but(before, self.components@, at),
            nodes_ok(before, links_of(self.channels@)),
            chans_ok(self.channels@, before.len()),
            self.components@[at].inv(),
            self.components@[at].id() == before[at].id(),
            self.components@[at].attached() == before[at].attached(),
            self.scheduler@.wf(),
            forall|k: int|
                0 <= k < sched_before.pending.len() ==> event_ok(
                    before.len(),
                    links_of(self.channels@),
                    #[trigger] sched_before.pending[k].event,
                ),
            sched_before.extended_by(
                self.scheduler@,
                component_may_schedule(before[at].id(), before[at].attached()),
            ),
        ensures
            self.wf(),
            same_wiring(before, self.components@),
            sched_before.extended_by(
                self.scheduler@,
                deliverable(before.len(), links_of(self.channels@)),
            ),
    {
        let links = links_of(self.channels@);
        let now = self.components@;
        let allowed = component_may_schedule::<E, M>(before[at].id(), before[at].attached());
        assert forall|i: int| 0 <= i < now.len() implies (#[trigger] now[i]).inv() && now[i].id().idx()
            == i && now[i].id() == before[i].id() && now[i].attached() == before[i].attached() by {
            if i != at {
                assert(now[i] == before[i]);
            }
        }
        assert forall|i: int, c: ChannelId|
            0 <= i < now.len() && #[trigger] now[i].attached().contains(c) implies c.idx()
            < links.len() && (links[c.idx() as int].0 == now[i].id() || links[c.idx() as int].1
            == now[i].id()) by {
            assert(before[i].attached().contains(c));
        }
        assert forall|e: EventType<E, M>| #[trigger] allowed(e) implies event_ok(
            before.len(),
            links,
            e,
        ) by {
            match e {
                EventType::MsgSendEvent(me) => {
                    assert(before[at].attached().contains(me.channel));
                },
                _ => {},
            }
        }
        lemma_extension_deliverable(sched_before, self.scheduler@, allowed, before.len(), links);
    }

    /// After the channel at `at` has forwarded a message from one of its
    /// endpoints, the run is still well formed.
    proof fn lemma_channel_stepped(
        &self,
        before: Seq<Ch>,
        sched_before: SchedulerView<E, M>,
        at: int,
        source: ComponentId,
    )
        requires
            0 <= at < before.len(),
            same_but(before, self.channels@, at),
            nodes_ok(self.components@, links_of(before)),
            chans_ok(before, self.components@.len()),
            self.channels@[at].inv(),
            self.channels@[at].id() == before[at].id(),
            self.channels@[at].left() == before[at].left(),
            self.channels@[at].right() == before[at].right(),
            self.scheduler@.wf(),
            forall|k: int|
                0 <= k < sched_before.pending.len() ==> event_ok(
                    self.components@.len(),
                    links_of(before),
                    #[trigger] sched_before.pending[k].event,
                ),
            sched_before.extended_by(
                self.scheduler@,
                channel_may_schedule(
                    before[at].id(),
                    other_end(before[at].left(), before[at].right(), source),
                ),
            ),
        ensures
            self.wf(),
            links_of(self.channels@) == links_of(before),
            sched_before.extended_by(
                self.scheduler@,
                deliverable(self.components@.len(), links_of(before)),
            ),
    {
        let links = links_of(before);
        let now = self.channels@;
        let allowed = channel_may_schedule::<E, M>(
            before[at].id(),
            other_end(before[at].left(), before[at].right(), source),
        );
        assert forall|j: int| 0 <= j < now.len() implies {
            &&& (#[trigger] now[j]).inv()
            &&& now[j].id().idx() == j
            &&& now[j].left() == before[j].left()
            &&& now[j].right() == before[j].right()
        } by {
            if j != at {
                assert(now[j] == before[j]);
            }
        }
        assert(links_of(now) =~= links);
        lemma_extension_deliverable(
            sched_before,
            self.scheduler@,
            allowed,
            self.components@.len(),
            links,
        );
    }

    /// `post` is the same run as `pre`: it has the same components,
    /// channels and event queue, and stands at the same point.
    pub open spec fn same_state(pre: &Self, post: &Self) -> bool {
        &&& post.components() == pre.components()
        &&& post.channels() == pre.channels()
        &&& post.sched() == pre.sched()
        &&& post.phase() == pre.phase()
        &&& post.dispatched() == pre.dispatched()
    }

    /// The next event of `pre` was dispatched, which gave `post`: the
    /// clock moved to the event's target time, a wake-up or an arriving
    /// message went to its receiver, and a message that was sent went to
    /// its channel.
    #[verifier::opaque]
    pub open spec fn stepped(pre: &Self, post: &Self) -> bool {
        &&& !pre.sched().at_end()
        &&& post.wf()
        &&& post.phase() == pre.phase()
        &&& same_wiring(pre.components(), post.components())
        &&& links_of(post.channels()) == links_of(pre.channels())
        &&& pre.sched().advance().extended_by(post.sched(), pre.may_schedule())
        &&& post.dispatched() == pre.dispatched() + 1
        &&& match pre.sched().pending[0].event {
                EventType::ProcessEvent(ce) => {
                    &&& post.channels() == pre.channels()
                    &&& C::event_effect(
                        &pre.components()[ce.receiver.idx() as int],
                        &post.components()[ce.receiver.idx() as int],
                        ce.sender,
                        ce.event,
                        pre.sched().advance(),
                        post.sched(),
                    )
                    &&& same_but(
                        pre.components(),
                        post.components(),
                        ce.receiver.idx() as int,
                    )
                    &&& pre.sched().advance().extended_by(
                        post.sched(),
                        component_may_schedule(
                            ce.receiver,
                            pre.components()[ce.receiver.idx() as int].attached(),
                        ),
                    )
                },
                EventType::MsgSendEvent(me) => {
                    &&& post.components() == pre.components()
                    &&& post.sched() == pre.sched().advance().schedule(
                        pre.channels()[me.channel.idx() as int].delay(),
                        EventType::MsgRcvEvent(
                            crate::scheduler::MessageRcvEvent {
                                channel: me.channel,
                                receiver: other_end(
                                    pre.channels()[me.channel.idx() as int].left(),
                                    pre.channels()[me.channel.idx() as int].right(),
                                    me.sender,
                                ),
                                message: me.message,
                            },
                        ),
                    )
                    &&& post.channels()[me.channel.idx() as int].delay() == pre.channels()[me.channel.idx() as int].delay()
                    &&& same_but(pre.channels(), post.channels(), me.channel.idx() as int)
                    &&& pre.sched().advance().extended_by(
                        post.sched(),
                        channel_may_schedule(
                            me.channel,
                            other_end(
                                pre.channels()[me.channel.idx() as int].left(),
                                pre.channels()[me.channel.idx() as int].right(),
                                me.sender,
                            ),
                        ),
                    )
                },
                EventType::MsgRcvEvent(re) => {
                    &&& post.channels() == pre.channels()
                    &&& C::message_effect(
                        &pre.components()[re.receiver.idx() as int],
                        &post.components()[re.receiver.idx() as int],
                        re.channel,
                        re.message,
                        pre.sched().advance(),
                        post.sched(),
                    )
                    &&& same_but(
                        pre.components(),
                        post.components(),
                        re.receiver.idx() as int,
                    )
                    &&& pre.sched().advance().extended_by(
                        post.sched(),
                        component_may_schedule(
                            re.receiver,
                            pre.components()[re.receiver.idx() as int].attached(),
                        ),
                    )
                },
                EventType::EndSimulation => false,
            }
    }

    /// `sims` are the states that a run went through while its events
    /// were dispatched one after the other.
    pub open spec fn run_trace(sims: Seq<Self>) -> bool {
        &&& sims.len() >= 1
        &&& forall|k: int|
            0 <= k < sims.len() - 1 ==> Self::stepped(#[trigger] &sims[k], &sims[k + 1])
    }

    /// `steps` events of `pre` were dispatched one after the other, which
    /// gave `post`.
    pub open spec fn ran(pre: &Self, post: &Self, steps: nat) -> bool {
        exists|sims: Seq<Self>|
            #[trigger] Self::run_trace(sims) && sims.len() == steps + 1 && sims[0] == *pre
                && Self::same_state(&sims[steps as int], post)
    }

    /// As `ran`, and before every event but the first the clock was not
    /// beyond `deadline`.
    pub open spec fn ran_until(pre: &Self, post: &Self, steps: nat, deadline: nat) -> bool {
        exists|sims: Seq<Self>|
            #[trigger] Self::run_trace(sims) && sims.len() == steps + 1 && sims[0] == *pre
                && Self::same_state(&sims[steps as int], post) && forall|k: int|
                0 < k < steps ==> (#[trigger] sims[k]).sched().now <= deadline
    }

    /// Dispatch the next event: a wake-up or an arriving message goes to
    /// its receiver, a message that was sent goes to its channel. Returns
    /// `false`, and changes nothing, when the run has failed or no event is
    /// pending.
    pub fn step(&mut self) -> (r: bool)
        requires
            old(self).wf(),
            old(self).phase() == Phase::Running,
        ensures
            final(self).wf(),
            final(self).phase() == Phase::Running,
            r == !old(self).sched().at_end(),
            !r ==> Self::same_state(old(self), final(self)),
            r ==> Self::stepped(old(self), final(self)),
            same_wiring(old(self).components(), final(self).components()),
            links_of(final(self).channels()) == links_of(old(self).channels()),
            old(self).sched().now <= final(self).sched().now,
            final(self).dispatched() == old(self).dispatched() + if r {
                1nat
            } else {
                0nat
            },
    {
        reveal(Simulation::stepped);
        let ghost links = links_of(self.channels@);
        let ghost n = self.components@.len();
        let event = self.scheduler.next_event();
        let ghost sched_before = self.scheduler@;
        let ghost comps = self.components@;
        let ghost chans = self.channels@;
        proof {
            use_type_invariant(&self.scheduler);
            self.scheduler.lemma_inv_wf();
            if !old(self).sched().at_end() {
                assert forall|k: int| 0 <= k < sched_before.pending.len() implies event_ok(
                    n,
                    links,
                    #[trigger] sched_before.pending[k].event,
                ) by {
                    assert(sched_before.pending[k] == old(self).sched().pending[k + 1]);
                }
                assert(event_ok(n, links, old(self).sched().pending[0].event));
            }
        }
        match event {
            EventType::ProcessEvent(ev_data) => {
                let idx = ev_data.receiver.as_idx();
                self.components[idx].process_event(
                    ev_data.sender,
                    ev_data.event,
                    &mut self.scheduler,
                );
                proof {
                    use_type_invariant(&self.scheduler);
                    self.scheduler.lemma_inv_wf();
                    ComponentId::lemma_idx_injective(comps[idx as int].id(), ev_data.receiver);
                    self.lemma_component_stepped(comps, sched_before, idx as int);
                }
                self.dispatched = Ghost(self.dispatched@ + 1);
                true
            },
            EventType::MsgSendEvent(ev_data) => {
                let idx = ev_data.channel.as_idx();
                proof {
                    ChannelId::lemma_idx_injective(chans[idx as int].id(), ev_data.channel);
                }
                self.channels[idx].accept_message_from(
                    ev_data.sender,
                    ev_data.message,
                    &mut self.scheduler,
                );
                proof {
                    use_type_invariant(&self.scheduler);
                    self.scheduler.lemma_inv_wf();
                    self.lemma_channel_stepped(chans, sched_before, idx as int, ev_data.sender);
                    assert forall|i: int| 0 <= i < comps.len() implies (#[trigger] comps[i]).id()
                        == comps[i].id() && comps[i].attached() == comps[i].attached() by {}
                }
                self.dispatched = Ghost(self.dispatched@ + 1);
                true
            },
            EventType::MsgRcvEvent(ev_data) => {
                let idx = ev_data.receiver.as_idx();
                self.components[idx].receive_msg(
                    ev_data.channel,
                    ev_data.message,
                    &mut self.scheduler,
                );
                proof {
                    use_type_invariant(&self.scheduler);
                    self.scheduler.lemma_inv_wf();
                    ComponentId::lemma_idx_injective(comps[idx as int].id(), ev_data.receiver);
                    self.lemma_component_stepped(comps, sched_before, idx as int);
                }
                self.dispatched = Ghost(self.dispatched@ + 1);
                true
            },
            EventType::EndSimulation => {
                proof {
                    assert forall|i: int| 0 <= i < comps.len() implies (#[trigger] comps[i]).id()
                        == comps[i].id() && comps[i].attached() == comps[i].attached() by {}
                }
                false
            },
        }
    }

    /// Dispatch events until the run has failed, no event is pending, or
    /// `max_steps` events have been dispatched. Reports whether the run
    /// has failed.
    pub fn run(&mut self, max_steps: usize) -> (r: Result<(), ()>)
        requires
            old(self).wf(),
            old(self).phase() == Phase::Running,
        ensures
            final(self).wf(),
            final(self).phase() == Phase::Running,
            r.is_err() == final(self).sched().failed,
            same_wiring(old(self).components(), final(self).components()),
            links_of(final(self).channels()) == links_of(old(self).channels()),
            old(self).sched().now <= final(self).sched().now,
            final(self).dispatched() <= old(self).dispatched() + max_steps,
            final(self).sched().at_end() || final(self).dispatched() == old(self).dispatched()
                + max_steps,
            Self::ran(
                old(self),
                final(self),
                (final(self).dispatched() - old(self).dispatched()) as nat,
            ),
    {
        let ghost mut sims: Seq<Self> = seq![*self];
        let mut steps: usize = 0;
        while steps < max_steps
            invariant
                steps <= max_steps,
                self.wf(),
                self.phase() == Phase::Running,
                same_wiring(old(self).components(), self.components()),
                links_of(self.channels()) == links_of(old(self).channels()),
                old(self).sched().now <= self.sched().now,
                self.dispatched() == old(self).dispatched() + steps,
                Self::run_trace(sims),
                sims.len() == steps + 1,
                sims[0] == *old(self),
                Self::same_state(&sims[steps as int], &*self),
            ensures
                self.sched().at_end() || steps == max_steps,
            decreases max_steps - steps,
        {
            let ghost before = *self;
            let more = self.step();
            if !more {
                break ;
            }
            proof {
                Self::lemma_trace_grows(sims, before, *self);
                sims = sims.push(*self);
            }
            steps += 1;
        }
        self.scheduler.sim_status()
    }

    /// A trace that ends in the same state as `before` grows by the step
    /// from `before` to `after`.
    proof fn lemma_trace_grows(sims: Seq<Self>, before: Self, after: Self)
        requires
            Self::run_trace(sims),
            Self::same_state(&sims[sims.len() - 1], &before),
            Self::stepped(&before, &after),
        ensures
            Self::run_trace(sims.push(after)),
            sims.push(after).len() == sims.len() + 1,
            sims.push(after)[0] == sims[0],
            sims.push(after)[sims.len() as int] == after,
            forall|k: int| 0 <= k < sims.len() ==> #[trigger] sims.push(after)[k] == sims[k],
    {
        let longer = sims.push(after);
        let last = sims[sims.len() - 1];
        assert(Self::stepped(&last, &after)) by {
            reveal(Simulation::stepped);
        }
        assert forall|k: int| 0 <= k < longer.len() - 1 implies Self::stepped(
            #[trigger] &longer[k],
            &longer[k + 1],
        ) by {
            if k < sims.len() - 1 {
                assert(longer[k] == sims[k] && longer[k + 1] == sims[k + 1]);
            } else {
                assert(longer[k] == last);
                assert(Self::stepped(&last, &after));
            }
        }
    }

    /// As `run`, but stop as well once an event has been dispatched that
    /// moved the clock beyond `time`. The deadline is looked at after each
    /// event: a pending event is dispatched even where the clock is
    /// already beyond the deadline.
    pub fn run_until(&mut self, time: SimTime, max_steps: usize) -> (r: Result<(), ()>)
        requires
            old(self).wf(),
            old(self).phase() == Phase::Running,
        ensures
            final(self).wf(),
            final(self).phase() == Phase::Running,
            r.is_err() == final(self).sched().failed,
            same_wiring(old(self).components(), final(self).components()),
            links_of(final(self).channels()) == links_of(old(self).channels()),
            old(self).sched().now <= final(self).sched().now,
            final(self).dispatched() <= old(self).dispatched() + max_steps,
            !old(self).sched().at_end() && max_steps > 0 ==> final(self).dispatched() > old(self).dispatched(),
            final(self).sched().at_end() || final(self).dispatched() == old(self).dispatched()
                + max_steps || (final(self).sched().now > time@ && final(self).dispatched() > old(self).dispatched()),
            Self::ran_until(
                old(self),
                final(self),
                (final(self).dispatched() - old(self).dispatched()) as nat,
                time@,
            ),
    {
        let ghost mut sims: Seq<Self> = seq![*self];
        let mut steps: usize = 0;
        while steps < max_steps
            invariant_except_break
                steps > 0 ==> self.sched().now <= time@,
            invariant
                Self::run_trace(sims),
                sims.len() == steps + 1,
                sims[0] == *old(self),
                Self::same_state(&sims[steps as int], &*self),
                forall|k: int| 0 < k < steps ==> (#[trigger] sims[k]).sched().now <= time@,
                steps <= max_steps,
                self.wf(),
                self.phase() == Phase::Running,
                same_wiring(old(self).components(), self.components()),
                links_of(self.channels()) == links_of(old(self).channels()),
                old(self).sched().now <= self.sched().now,
                self.dispatched() == old(self).dispatched() + steps,
                steps == 0 ==> self.sched() == old(self).sched(),
            ensures
                steps <= max_steps,
                self.dispatched() == old(self).dispatched() + steps,
                self.sched().at_end() || steps == max_steps || (self.sched().now > time@ && steps
                    > 0),
                !old(self).sched().at_end() && max_steps > 0 ==> steps > 0,
            decreases max_steps - steps,
        {
            let ghost before = *self;
            let more = self.step();
            if !more {
                break ;
            }
            proof {
                Self::lemma_trace_grows(sims, before, *self);
                sims = sims.push(*self);
            }
            steps += 1;
            if time.is_before(self.scheduler.get_curr_time()) {
                break ;
            }
        }
        self.scheduler.sim_status()
    }

    /// Tell every component, in the order of their identifiers, that the
    /// run is over.
    pub fn call_terminate(&mut self)
        requires
            old(self).wf(),
            old(self).phase() == Phase::Running,
        ensures
            final(self).wf(),
            final(self).phase() == Phase::Terminated,
            same_wiring(old(self).components(), final(self).components()),
            final(self).channels() == old(self).channels(),
            forall|i: int|
                0 <= i < old(self).components().len() ==> C::terminate_effect(
                    &old(self).components()[i],
                    #[trigger] &final(self).components()[i],
                ),
            final(self).sched() == old(self).sched(),
            final(self).dispatched() == old(self).dispatched(),
    {
        let n = self.components.len();
        let mut i: usize = 0;
        while i < n
            invariant
                forall|j: int|
                    0 <= j < i ==> C::terminate_effect(
                        &old(self).components@[j],
                        #[trigger] &self.components@[j],
                    ),
                forall|j: int| i <= j < n ==> #[trigger] self.components@[j] == old(self).components@[j],
                i <= n,
                n == self.components@.len(),
                self.wf(),
                self.channels@ == old(self).channels@,
                self.scheduler@ == old(self).scheduler@,
                same_wiring(old(self).components@, self.components@),
                self.phase == old(self).phase,
                self.dispatched == old(self).dispatched,
            decreases n - i,
        {
            let ghost before = self.components@;
            self.components[i].terminate();
            proof {
                crate::scheduler::lemma_extended_refl(
                    self.scheduler@,
                    component_may_schedule(before[i as int].id(), before[i as int].attached()),
                );
                self.lemma_component_stepped(before, self.scheduler@, i as int);
            }
            i += 1;
        }
        self.phase = Phase::Terminated;
    }

    /// Hand the components to `check` and return its verdict.
    pub fn validate<F: Fn(&Vec<C>) -> bool>(&self, check: F) -> (r: bool)
        requires
            call_requires(check, (&self.nodes(),)),
        ensures
            call_ensures(check, (&self.nodes(),), r),
    {
        check(&self.components)
    }

    /// Whether the run has failed.
    pub fn sim_status(&self) -> (r: Result<(), ()>)
        ensures
            r.is_err() == self.sched().failed,
    {
        self.scheduler.sim_status()
    }

    /// The current time.
    pub fn time(&self) -> (r: SimTime)
        ensures
            r@ == self.sched().now,
    {
        *self.scheduler.get_curr_time()
    }

    /// The number of pending events.
    pub fn pending_count(&self) -> (r: usize)
        ensures
            r == self.sched().pending.len(),
    {
        self.scheduler.pending_count()
    }

    /// The number of components.
    pub fn component_count(&self) -> (r: usize)
        ensures
            r == self.components().len(),
    {
        self.components.len()
    }

    /// The component with the given identifier.
    pub fn component(&self, id: ComponentId) -> (r: &C)
        requires
            id.idx() < self.components().len(),
        ensures
            *r == self.components()[id.idx() as int],
    {
        &self.components[id.as_idx()]
    }

    /// The number of channels.
    pub fn channel_count(&self) -> (r: usize)
        ensures
            r == self.channels().len(),
    {
        self.channels.len()
    }

    /// The channel with the given identifier.
    pub fn channel(&self, id: ChannelId) -> (r: &Ch)
        requires
            id.idx() < self.channels().len(),
        ensures
            *r == self.channels()[id.idx() as int],
    {
        &self.channels[id.as_idx()]
    }

    /// Schedule, from outside the simulated system, a wake-up of
    /// `receiver` at `timedelta` from now.
    pub fn sched_component_event(
        &mut self,
        timedelta: SimTimeDelta,
        sender: ComponentId,
        receiver: ComponentId,
        event: Option<E>,
    )
        requires
            old(self).wf(),
            receiver.idx() < old(self).components().len(),
        ensures
            final(self).wf(),
            final(self).phase() == old(self).phase(),
            final(self).components() == old(self).components(),
            final(self).channels() == old(self).channels(),
            final(self).dispatched() == old(self).dispatched(),
            final(self).sched() == old(self).sched().schedule(
                timedelta@,
                EventType::ProcessEvent(
                    crate::scheduler::ComponentEvent { sender, receiver, event },
                ),
            ),
    {
        let ghost e = EventType::<E, M>::ProcessEvent(
            crate::scheduler::ComponentEvent { sender, receiver, event },
        );
        proof {
            crate::scheduler::lemma_schedule_extends(
                self.scheduler@,
                timedelta@,
                e,
                self.may_schedule(),
            );
            crate::scheduler::lemma_schedule_wf(self.scheduler@, timedelta@, e);
            lemma_extension_deliverable(
                self.scheduler@,
                self.scheduler@.schedule(timedelta@, e),
                self.may_schedule(),
                self.components@.len(),
                links_of(self.channels@),
            );
        }
        self.scheduler.sched_component_event(timedelta, sender, receiver, event);
    }
}

} // verus!
