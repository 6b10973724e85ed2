//! Channels: the simulated links between two components.

use crate::keys::{ChannelId, ComponentId};
use crate::scheduler::{EventType, MessageRcvEvent, Scheduler};
use vstd::prelude::*;

verus! {

/// What the channel `channel` may put into the event queue: the arrival of
/// a message at `receiver`.
pub open spec fn channel_may_schedule<E, M>(
    channel: ChannelId,
    receiver: ComponentId,
) -> spec_fn(EventType<E, M>) -> bool {
    |e: EventType<E, M>|
        match e {
            EventType::MsgRcvEvent(re) => re.channel == channel && re.receiver == receiver,
            _ => false,
        }
}

/// The endpoint of a link between `left` and `right` that a message from
/// `source` travels to.
pub open spec fn other_end(left: ComponentId, right: ComponentId, source: ComponentId) -> ComponentId {
    if source == left {
        right
    } else {
        left
    }
}

/// A point-to-point link. It forwards a message from whichever endpoint
/// sent it to the other one.
pub trait ChannelTrait: Sized {
    /// What the channel requires of its own state.
    spec fn inv(&self) -> bool;

    spec fn id(&self) -> ChannelId;

    spec fn left(&self) -> ComponentId;

    spec fn right(&self) -> ComponentId;

    /// How long a message takes on the channel, in nanoseconds.
    spec fn delay(&self) -> nat;

    /// Take `message` from the endpoint `source` and schedule its arrival
    /// at the other endpoint, `delay` after the current time. `source`
    /// must be one of the two endpoints.
    fn accept_message_from<E, M>(
        &mut self,
        source: ComponentId,
        message: M,
        sched: &mut Scheduler<E, M>,
    )
        requires
            old(self).inv(),
            source == old(self).left() || source == old(self).right(),
        ensures
            final(self).inv(),
            final(self).id() == old(self).id(),
            final(self).left() == old(self).left(),
            final(self).right() == old(self).right(),
            old(sched)@.extended_by(
                final(sched)@,
                channel_may_schedule(
                    old(self).id(),
                    other_end(old(self).left(), old(self).right(), source),
                ),
            ),
            final(self).delay() == old(self).delay(),
            final(sched)@ == old(sched)@.schedule(
                old(self).delay(),
                EventType::MsgRcvEvent(
                    MessageRcvEvent {
                        channel: old(self).id(),
                        receiver: other_end(old(self).left(), old(self).right(), source),
                        message,
                    },
                ),
            ),
    ;
}

/// Makes the channels of a run.
pub trait ChannelBuilder {
    type C: ChannelTrait;

    /// What `build_channel` makes.
    spec fn builds(&self, c: ChannelId, left: ComponentId, right: ComponentId, built: &Self::C) -> bool;

    fn build_channel(&self, c: ChannelId, left: ComponentId, right: ComponentId) -> (r: Self::C)
        ensures
            r.inv(),
            r.id() == c,
            r.left() == left,
            r.right() == right,
            self.builds(c, left, right, &r),
    ;
}

} // verus!
