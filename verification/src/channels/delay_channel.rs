//! A channel with a fixed propagation delay.

use crate::channel::{channel_may_schedule, other_end, ChannelBuilder, ChannelTrait};
use crate::keys::{ChannelId, ComponentId};
use crate::scheduler::{lemma_schedule_extends, EventType, MessageRcvEvent, Scheduler};
use crate::simtime::{clamp_nanos, duration_nanos, SimTimeDelta, NANOS_PER_MICRO, NANOS_PER_MILLI, NANOS_PER_SEC};
use std::time::Duration;
use vstd::prelude::*;

verus! {

/// A link between `left` and `right` on which every message takes `delay`
/// to arrive.
#[derive(Debug)]
pub struct DelayChannel {
    pub id: ChannelId,
    pub left: ComponentId,
    pub right: ComponentId,
    pub delay: SimTimeDelta,
}

impl ChannelTrait for DelayChannel {
    open spec fn inv(&self) -> bool {
        true
    }

    open spec fn id(&self) -> ChannelId {
        self.id
    }

    open spec fn left(&self) -> ComponentId {
        self.left
    }

    open spec fn right(&self) -> ComponentId {
        self.right
    }

    open spec fn delay(&self) -> nat {
        self.delay@
    }

    /// The message arrives at the other endpoint `delay` after the current
    /// time: one event is scheduled, at `now + delay`.
    fn accept_message_from<E, M>(
        &mut self,
        source: ComponentId,
        message: M,
        sched: &mut Scheduler<E, M>,
    )
        ensures
            *final(self) == *old(self),
    {
        let dst = if source == self.left {
            self.right
        } else {
            self.left
        };
        proof {
            use_type_invariant(&*sched);
            sched.lemma_inv_wf();
            lemma_schedule_extends(
                sched@,
                self.delay@,
                EventType::MsgRcvEvent(
                    MessageRcvEvent { channel: self.id, receiver: dst, message },
                ),
                channel_may_schedule(self.id, dst),
            );
        }
        sched.sched_receive_msg(self.delay, dst, self.id, message);
    }
}

/// A message that a channel with the delay `delay` accepts at the time
/// `now` is due at its receiver `delay` later, that is, at `now + delay`
/// where the clock can represent that time, and in no case before `now`;
/// and the clock shows that time when the message is delivered from the
/// front of the queue.
pub proof fn lemma_delay_is_exact<E, M>(
    v: crate::scheduler::SchedulerView<E, M>,
    channel: DelayChannel,
    source: ComponentId,
    message: M,
)
    requires
        v.wf(),
    ensures
        ({
            let event = EventType::<E, M>::MsgRcvEvent(
                MessageRcvEvent {
                    channel: channel.id,
                    receiver: other_end(channel.left, channel.right, source),
                    message,
                },
            );
            let sent = v.schedule(channel.delay@, event);
            let arrival = v.entry(channel.delay@, event);
            &&& sent.pending.contains(arrival)
            &&& arrival.event == event
            &&& arrival.time >= v.now
            &&& v.now + channel.delay@ <= crate::simtime::MAX_NANOS ==> arrival.time == v.now
                + channel.delay@
            &&& forall|w: crate::scheduler::SchedulerView<E, M>|
                w.pending.len() > 0 && w.pending[0] == arrival ==> (#[trigger] w.advance()).now
                    == arrival.time
        }),
{
    let event = EventType::<E, M>::MsgRcvEvent(
        MessageRcvEvent {
            channel: channel.id,
            receiver: other_end(channel.left, channel.right, source),
            message,
        },
    );
    crate::scheduler::lemma_target_time(v, channel.delay@, event);
}

/// Makes `DelayChannel`s that all have the same delay.
pub struct DelayChannelBuilder {
    delay: SimTimeDelta,
}

impl Default for DelayChannelBuilder {
    fn default() -> (r: Self)
        ensures
            r.delay_spec()@ == 0,
    {
        DelayChannelBuilder { delay: crate::simtime::no_delta() }
    }
}

impl ChannelBuilder for DelayChannelBuilder {
    type C = DelayChannel;

    /// A channel with the builder's delay.
    open spec fn builds(&self, c: ChannelId, left: ComponentId, right: ComponentId, built: &DelayChannel) -> bool {
        *built == (DelayChannel { id: c, left, right, delay: self.delay_spec() })
    }

    fn build_channel(&self, id: ChannelId, left: ComponentId, right: ComponentId) -> (r: DelayChannel) {
        DelayChannel { id, left, right, delay: self.delay }
    }
}

impl DelayChannelBuilder {
    /// The delay that the channels built from now on will have.
    pub closed spec fn delay_spec(&self) -> SimTimeDelta {
        self.delay
    }

    pub fn new() -> (r: Self)
        ensures
            r.delay_spec()@ == 0,
    {
        DelayChannelBuilder { delay: crate::simtime::no_delta() }
    }

    pub fn with_delay(delay: Duration) -> (r: Self)
        ensures
            r.delay_spec()@ == clamp_nanos(duration_nanos(delay) as int),
    {
        DelayChannelBuilder { delay: SimTimeDelta::from(delay) }
    }

    pub fn delay(&mut self, delay: Duration) -> (r: &mut Self)
        ensures
            r.delay_spec()@ == clamp_nanos(duration_nanos(delay) as int),
            *final(self) == *final(r),
    {
        self.delay = SimTimeDelta::from(delay);
        self
    }

    pub fn delay_sec(&mut self, sec: u64) -> (r: &mut Self)
        ensures
            r.delay_spec()@ == sec * NANOS_PER_SEC,
            *final(self) == *final(r),
    {
        self.delay = SimTimeDelta::from_secs(sec);
        self
    }

    pub fn delay_millis(&mut self, millis: u64) -> (r: &mut Self)
        ensures
            r.delay_spec()@ == millis * NANOS_PER_MILLI,
            *final(self) == *final(r),
    {
        self.delay = SimTimeDelta::from_millis(millis);
        self
    }

    pub fn delay_micros(&mut self, micros: u64) -> (r: &mut Self)
        ensures
            r.delay_spec()@ == micros * NANOS_PER_MICRO,
            *final(self) == *final(r),
    {
        self.delay = SimTimeDelta::from_micros(micros);
        self
    }
}

} // verus!
