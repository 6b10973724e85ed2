//! What a component needs to talk to the event queue in its own name.

use crate::keys::{ChannelId, ComponentId};
use crate::scheduler::{ComponentEvent, EventType, MessageSendEvent, Scheduler};
use crate::simtime::SimTimeDelta;
use vstd::prelude::*;

verus! {

#[derive(Debug)]
pub struct SimBase {
    sim_id: ComponentId,
}

impl SimBase {
    /// The component that this stands for.
    pub closed spec fn id(&self) -> ComponentId {
        self.sim_id
    }

    pub fn new(sim_id: ComponentId) -> (r: Self)
        ensures
            r.id() == sim_id,
    {
        SimBase { sim_id }
    }

    pub fn sim_id(&self) -> (r: ComponentId)
        ensures
            r == self.id(),
    {
        self.sim_id
    }

    /// Hand `msg` to `channel` at the current time.
    pub fn send_msg_on_channel<E, M>(&self, channel: ChannelId, msg: M, sched: &mut Scheduler<E, M>)
        ensures
            final(sched)@ == old(sched)@.schedule(
                0,
                EventType::MsgSendEvent(
                    MessageSendEvent { sender: self.id(), channel, message: msg },
                ),
            ),
    {
        sched.send_msg(self.sim_id, channel, msg);
    }

    /// Have `timer` delivered to the component after `timeout`.
    pub fn timer<E, M>(&self, timeout: SimTimeDelta, timer: E, sched: &mut Scheduler<E, M>)
        ensures
            final(sched)@ == old(sched)@.schedule(
                timeout@,
                EventType::ProcessEvent(
                    ComponentEvent { sender: self.id(), receiver: self.id(), event: Some(timer) },
                ),
            ),
    {
        sched.sched_self_event_with_data(timeout, self.sim_id, timer);
    }

    /// Abort the run.
    pub fn stop_simulation<E, M>(&self, sched: &mut Scheduler<E, M>)
        ensures
            final(sched)@ == old(sched)@.fail(),
    {
        sched.sim_error();
    }
}

} // verus!
