//! A component that does nothing: a stand-in for a node that takes no part
//! in the protocol, such as a host at the edge of a network.

use crate::component::{component_may_schedule, ChannelLabel, Component, ComponentBuilder};
use crate::keys::{ChannelId, ComponentId};
use crate::scheduler::{lemma_extended_refl, Scheduler, SchedulerView};
use vstd::prelude::*;

verus! {

#[derive(Debug)]
pub struct DummyComponent {
    component_id: ComponentId,
}

impl DummyComponent {
    /// The identifier under which the run knows the component.
    pub closed spec fn ident(&self) -> ComponentId {
        self.component_id
    }

    /// Nothing happens.
    pub open spec fn idle<E, M>(
        pre: &Self,
        post: &Self,
        before: SchedulerView<E, M>,
        after: SchedulerView<E, M>,
    ) -> bool {
        *post == *pre && after == before
    }

    /// The run is aborted.
    pub open spec fn refused<E, M>(
        pre: &Self,
        post: &Self,
        before: SchedulerView<E, M>,
        after: SchedulerView<E, M>,
    ) -> bool {
        *post == *pre && after == before.fail()
    }
}

impl<E, M> Component<E, M> for DummyComponent {
    open spec fn inv(&self) -> bool {
        true
    }

    open spec fn id(&self) -> ComponentId {
        self.ident()
    }

    open spec fn attached(&self) -> Set<ChannelId> {
        Set::empty()
    }

    /// The channel is ignored.
    open spec fn channel_effect(pre: &Self, post: &Self, channel_id: ChannelId, label: ChannelLabel) -> bool {
        *post == *pre
    }

    open spec fn terminate_effect(pre: &Self, post: &Self) -> bool {
        *post == *pre
    }

    open spec fn init_effect(
        pre: &Self,
        post: &Self,
        before: SchedulerView<E, M>,
        after: SchedulerView<E, M>,
    ) -> bool {
        Self::idle(pre, post, before, after)
    }

    /// A dummy component is not meant to be woken up: the run fails.
    open spec fn event_effect(
        pre: &Self,
        post: &Self,
        sender: ComponentId,
        event: Option<E>,
        before: SchedulerView<E, M>,
        after: SchedulerView<E, M>,
    ) -> bool {
        Self::refused(pre, post, before, after)
    }

    /// A dummy component is not meant to receive messages: the run fails.
    open spec fn message_effect(
        pre: &Self,
        post: &Self,
        incoming_channel: ChannelId,
        msg: M,
        before: SchedulerView<E, M>,
        after: SchedulerView<E, M>,
    ) -> bool {
        Self::refused(pre, post, before, after)
    }

    fn sim_id(&self) -> (r: ComponentId) {
        self.component_id
    }

    fn add_channel(&mut self, _channel_id: ChannelId, _label: ChannelLabel) {
    }

    fn init(&mut self, sched: &mut Scheduler<E, M>) {
        proof {
            use_type_invariant(&*sched);
            sched.lemma_inv_wf();
            lemma_extended_refl(sched@, component_may_schedule(self.component_id, Set::empty()));
        }
    }

    fn process_event(&mut self, _sender: ComponentId, _event: Option<E>, sched: &mut Scheduler<E, M>) {
        proof {
            use_type_invariant(&*sched);
            sched.lemma_inv_wf();
            lemma_extended_refl(sched@, component_may_schedule(self.component_id, Set::empty()));
        }
        sched.sim_error();
    }

    fn receive_msg(&mut self, _incoming_channel: ChannelId, _msg: M, sched: &mut Scheduler<E, M>) {
        proof {
            use_type_invariant(&*sched);
            sched.lemma_inv_wf();
            lemma_extended_refl(sched@, component_may_schedule(self.component_id, Set::empty()));
        }
        sched.sim_error();
    }

    fn terminate(&mut self) {
    }
}

#[derive(Debug)]
pub struct DummyComponentBuilder {}

impl Default for DummyComponentBuilder {
    fn default() -> Self {
        DummyComponentBuilder {  }
    }
}

impl<E, M> ComponentBuilder<E, M> for DummyComponentBuilder {
    type C = DummyComponent;

    open spec fn ready(&self) -> bool {
        true
    }

    open spec fn builds(pre: &Self, post: &Self, id: ComponentId, built: &DummyComponent) -> bool {
        built.ident() == id
    }

    fn build_component(&mut self, id: ComponentId) -> (r: DummyComponent) {
        DummyComponent { component_id: id }
    }
}

} // verus!
