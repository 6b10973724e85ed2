//! The channel of a synchronous network: every message takes one round.

use crate::channel::{channel_may_schedule, ChannelBuilder, ChannelTrait};
use crate::keys::{ChannelId, ComponentId};
use crate::scheduler::{lemma_schedule_extends, EventType, MessageRcvEvent, Scheduler};
use crate::simtime::{SimTimeDelta, NANOS_PER_SEC};
use vstd::prelude::*;

verus! {

/// The length of a round in nanoseconds: one second.
pub open spec fn round_nanos() -> nat {
    NANOS_PER_SEC as nat
}

/// The length of a round.
pub fn round_delta() -> (r: SimTimeDelta)
    ensures
        r@ == round_nanos(),
{
    SimTimeDelta::from_secs(1)
}

#[derive(Debug)]
pub struct BasicChannel {
    pub id: ChannelId,
    pub left: ComponentId,
    pub right: ComponentId,
}

impl ChannelTrait for BasicChannel {
    open spec fn inv(&self) -> bool {
        true
    }

    open spec fn id(&self) -> ChannelId {
        self.id
    }

    open spec fn left(&self) -> ComponentId {
        self.left
    }

    open spec fn right(&self) -> ComponentId {
        self.right
    }

    /// One round.
    open spec fn delay(&self) -> nat {
        round_nanos()
    }

    /// The message arrives at the other endpoint one round after the
    /// current time.
    fn accept_message_from<E, M>(
        &mut self,
        source: ComponentId,
        message: M,
        sched: &mut Scheduler<E, M>,
    )
        ensures
            *final(self) == *old(self),
    {
        let dst = if source == self.left {
            self.right
        } else {
            self.left
        };
        proof {
            use_type_invariant(&*sched);
            sched.lemma_inv_wf();
            lemma_schedule_extends(
                sched@,
                round_nanos(),
                EventType::MsgRcvEvent(MessageRcvEvent { channel: self.id, receiver: dst, message }),
                channel_may_schedule(self.id, dst),
            );
        }
        sched.sched_receive_msg(round_delta(), dst, self.id, message);
    }
}

pub struct BasicChannelBuilder {}

impl ChannelBuilder for BasicChannelBuilder {
    type C = BasicChannel;

    open spec fn builds(&self, c: ChannelId, left: ComponentId, right: ComponentId, built: &BasicChannel) -> bool {
        *built == (BasicChannel { id: c, left, right })
    }

    fn build_channel(&self, id: ChannelId, left: ComponentId, right: ComponentId) -> (r: BasicChannel) {
        BasicChannel { id, left, right }
    }
}

} // verus!
