//! Components: the simulated nodes, and what a run may ask of them.

use crate::keys::{ChannelId, ComponentId};
use crate::scheduler::{EventType, Scheduler, SchedulerView};
use vstd::prelude::*;

verus! {

/// The role under which a channel is attached to a component: the
/// component is the channel's left or its right endpoint.
#[derive(Debug, Copy, Clone, PartialEq, Eq, Structural)]
pub enum ChannelLabel {
    Left,
    Right,
}

/// The bookkeeping that most components share: their identifier and the
/// channels attached to them, in the order of attachment.
#[derive(Debug)]
pub struct ComponentBase {
    pub component_id: ComponentId,
    pub channels: Vec<ChannelId>,
}

impl ComponentBase {
    pub fn new(id: ComponentId) -> (r: Self)
        ensures
            r.component_id == id,
            r.channels@.len() == 0,
    {
        ComponentBase { component_id: id, channels: Vec::new() }
    }

    pub fn add_channel(&mut self, channel_id: ChannelId, _label: ChannelLabel)
        ensures
            final(self).component_id == old(self).component_id,
            final(self).channels@ == old(self).channels@.push(channel_id),
    {
        self.channels.push(channel_id);
    }
}

/// What the component `id`, with the channels `attached`, may put into the
/// event queue: wake-ups of itself, and messages that it hands to one of
/// its own channels.
pub open spec fn component_may_schedule<E, M>(
    id: ComponentId,
    attached: Set<ChannelId>,
) -> spec_fn(EventType<E, M>) -> bool {
    |e: EventType<E, M>|
        match e {
            EventType::ProcessEvent(ce) => ce.sender == id && ce.receiver == id,
            EventType::MsgSendEvent(me) => me.sender == id && attached.contains(me.channel),
            _ => false,
        }
}

/// A simulated node. `E` is the payload of its wake-ups, `M` the type of
/// the messages that travel over channels.
///
/// A component changes nothing but itself and the event queue, and the
/// queue only by scheduling wake-ups of itself and messages on its own
/// channels; it may also raise the run's failure flag.
pub trait Component<E, M>: Sized {
    /// What the component requires of its own state.
    spec fn inv(&self) -> bool;

    /// The identifier under which the run knows the component.
    spec fn id(&self) -> ComponentId;

    /// The channels that the component uses.
    spec fn attached(&self) -> Set<ChannelId>;

    /// What `add_channel` does: it turns `pre` into `post`.
    spec fn channel_effect(pre: &Self, post: &Self, channel_id: ChannelId, label: ChannelLabel) -> bool;

    /// What `terminate` does.
    spec fn terminate_effect(pre: &Self, post: &Self) -> bool;

    /// What `init` does: it turns `pre` into `post`, and the event queue
    /// `before` into `after`.
    spec fn init_effect(
        pre: &Self,
        post: &Self,
        before: SchedulerView<E, M>,
        after: SchedulerView<E, M>,
    ) -> bool;

    /// What `process_event` does.
    spec fn event_effect(
        pre: &Self,
        post: &Self,
        sender: ComponentId,
        event: Option<E>,
        before: SchedulerView<E, M>,
        after: SchedulerView<E, M>,
    ) -> bool;

    /// What `receive_msg` does.
    spec fn message_effect(
        pre: &Self,
        post: &Self,
        incoming_channel: ChannelId,
        msg: M,
        before: SchedulerView<E, M>,
        after: SchedulerView<E, M>,
    ) -> bool;

    fn sim_id(&self) -> (r: ComponentId)
        requires
            self.inv(),
        ensures
            r == self.id(),
    ;

    /// Attach a channel. Called once per channel, before `init`.
    fn add_channel(&mut self, channel_id: ChannelId, label: ChannelLabel)
        requires
            old(self).inv(),
        ensures
            final(self).inv(),
            final(self).id() == old(self).id(),
            final(self).attached().subset_of(old(self).attached().insert(channel_id)),
            Self::channel_effect(old(self), final(self), channel_id, label),
    ;

    /// Called once, after every channel has been attached.
    fn init(&mut self, sched: &mut Scheduler<E, M>)
        requires
            old(self).inv(),
        ensures
            final(self).inv(),
            final(self).id() == old(self).id(),
            final(self).attached() == old(self).attached(),
            old(sched)@.extended_by(
                final(sched)@,
                component_may_schedule(old(self).id(), old(self).attached()),
            ),
            Self::init_effect(old(self), final(self), old(sched)@, final(sched)@),
    ;

    /// Delivery of a wake-up.
    fn process_event(&mut self, sender: ComponentId, event: Option<E>, sched: &mut Scheduler<E, M>)
        requires
            old(self).inv(),
        ensures
            final(self).inv(),
            final(self).id() == old(self).id(),
            final(self).attached() == old(self).attached(),
            old(sched)@.extended_by(
                final(sched)@,
                component_may_schedule(old(self).id(), old(self).attached()),
            ),
            Self::event_effect(old(self), final(self), sender, event, old(sched)@, final(sched)@),
    ;

    /// Delivery of a message that travelled over `incoming_channel`.
    fn receive_msg(&mut self, incoming_channel: ChannelId, msg: M, sched: &mut Scheduler<E, M>)
        requires
            old(self).inv(),
        ensures
            final(self).inv(),
            final(self).id() == old(self).id(),
            final(self).attached() == old(self).attached(),
            old(sched)@.extended_by(
                final(sched)@,
                component_may_schedule(old(self).id(), old(self).attached()),
            ),
            Self::message_effect(
                old(self),
                final(self),
                incoming_channel,
                msg,
                old(sched)@,
                final(sched)@,
            ),
    ;

    /// Called once when the run is over.
    fn terminate(&mut self)
        requires
            old(self).inv(),
        ensures
            final(self).inv(),
            final(self).id() == old(self).id(),
            final(self).attached() == old(self).attached(),
            Self::terminate_effect(old(self), final(self)),
    ;
}

/// Makes the components of a run, one per call.
pub trait ComponentBuilder<E, M> {
    type C: Component<E, M>;

    /// Whether the builder can make one more component.
    spec fn ready(&self) -> bool;

    /// What `build_component` does: it turns the builder `pre` into `post`
    /// and makes `built`.
    spec fn builds(pre: &Self, post: &Self, id: ComponentId, built: &Self::C) -> bool;

    fn build_component(&mut self, id: ComponentId) -> (r: Self::C)
        requires
            old(self).ready(),
        ensures
            r.inv(),
            r.id() == id,
            r.attached() == Set::<ChannelId>::empty(),
            Self::builds(old(self), final(self), id, &r),
    ;
}

} // verus!
