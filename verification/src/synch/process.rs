//! Processes of a synchronous network. Time goes in rounds of one second:
//! what is sent in one round arrives in the next. A process is started in
//! round zero, and is told when the first message of a new round arrives.

use crate::component::{component_may_schedule, ChannelLabel, Component};
use crate::keys::{ChannelId, ComponentId};
use crate::scheduler::{
    lemma_extended_refl, lemma_extended_trans, ComponentEvent, EventType, Scheduler,
    SchedulerView,
};
use crate::simtime::{no_delta, SimTime, NANOS_PER_SEC};
use vstd::prelude::*;

verus! {

pub type ProcessId = ComponentId;

/// The bookkeeping that synchronous processes share.
#[derive(Debug)]
pub struct ProcessBase {
    pub component_id: ComponentId,
    pub channels: Vec<ChannelId>,
    /// The time at which the process was last told of a new round.
    pub curr_round: SimTime,
}

impl ProcessBase {
    pub fn new(id: ComponentId) -> (r: Self)
        ensures
            r.component_id == id,
            r.channels@.len() == 0,
            r.curr_round@ == 0,
    {
        ProcessBase { component_id: id, channels: Vec::new(), curr_round: SimTime::default() }
    }

    pub fn add_channel(&mut self, channel_id: ChannelId, _label: ChannelLabel)
        ensures
            final(self).component_id == old(self).component_id,
            final(self).curr_round == old(self).curr_round,
            final(self).channels@ == old(self).channels@.push(channel_id),
    {
        self.channels.push(channel_id);
    }
}

/// A process of a synchronous network. Whoever implements this is a
/// component: see the `Component` that every `SynchProcess` is.
pub trait SynchProcess<M>: Sized {
    /// What the process requires of its own state.
    spec fn sound(&self) -> bool;

    /// The identifier under which the run knows the process.
    spec fn pid(&self) -> ProcessId;

    /// The channels that the process uses.
    spec fn links(&self) -> Set<ChannelId>;

    /// The time of the round that the process is in.
    spec fn round(&self) -> SimTime;

    /// What `set_curr_round` does: it turns `pre` into `post`.
    spec fn round_effect(pre: &Self, post: &Self, round: SimTime) -> bool;

    /// What `init` does.
    spec fn init_effect(pre: &Self, post: &Self) -> bool;

    /// What `add_channel` does.
    spec fn channel_effect(pre: &Self, post: &Self, channel_id: ChannelId, label: ChannelLabel) -> bool;

    /// What `terminate` does.
    spec fn terminate_effect(pre: &Self, post: &Self) -> bool;

    /// What `round_zero` does: it turns `pre` into `post`, and the event
    /// queue `before` into `after`.
    spec fn round_zero_effect(
        pre: &Self,
        post: &Self,
        before: SchedulerView<(), M>,
        after: SchedulerView<(), M>,
    ) -> bool;

    /// What `start_new_round` does.
    spec fn new_round_effect(
        pre: &Self,
        post: &Self,
        before: SchedulerView<(), M>,
        after: SchedulerView<(), M>,
    ) -> bool;

    /// What `receive_msg` does.
    spec fn message_effect(
        pre: &Self,
        post: &Self,
        incoming_channel: ChannelId,
        msg: M,
        before: SchedulerView<(), M>,
        after: SchedulerView<(), M>,
    ) -> bool;

    fn id(&self) -> (r: ProcessId)
        requires
            self.sound(),
        ensures
            r == self.pid(),
    ;

    fn get_curr_round(&self) -> (r: &SimTime)
        requires
            self.sound(),
        ensures
            *r == self.round(),
    ;

    fn set_curr_round(&mut self, round: SimTime)
        requires
            old(self).sound(),
        ensures
            final(self).sound(),
            final(self).pid() == old(self).pid(),
            final(self).links() == old(self).links(),
            final(self).round() == round,
            Self::round_effect(old(self), final(self), round),
    ;

    fn add_channel(&mut self, channel_id: ChannelId, label: ChannelLabel)
        requires
            old(self).sound(),
        ensures
            final(self).sound(),
            final(self).pid() == old(self).pid(),
            final(self).round() == old(self).round(),
            final(self).links().subset_of(old(self).links().insert(channel_id)),
            Self::channel_effect(old(self), final(self), channel_id, label),
    ;

    /// Called once, before round zero.
    fn init(&mut self)
        requires
            old(self).sound(),
        ensures
            final(self).sound(),
            final(self).pid() == old(self).pid(),
            final(self).round() == old(self).round(),
            final(self).links() == old(self).links(),
            Self::init_effect(old(self), final(self)),
    ;

    /// Round zero: the process starts.
    fn round_zero(&mut self, sched: &mut Scheduler<(), M>)
        requires
            old(self).sound(),
        ensures
            final(self).sound(),
            final(self).pid() == old(self).pid(),
            final(self).round() == old(self).round(),
            final(self).links() == old(self).links(),
            old(sched)@.extended_by(
                final(sched)@,
                component_may_schedule(old(self).pid(), old(self).links()),
            ),
            Self::round_zero_effect(old(self), final(self), old(sched)@, final(sched)@),
    ;

    /// The first message of a new round is about to be delivered.
    fn start_new_round(&mut self, sched: &mut Scheduler<(), M>)
        requires
            old(self).sound(),
        ensures
            final(self).sound(),
            final(self).pid() == old(self).pid(),
            final(self).round() == old(self).round(),
            final(self).links() == old(self).links(),
            old(sched)@.extended_by(
                final(sched)@,
                component_may_schedule(old(self).pid(), old(self).links()),
            ),
            Self::new_round_effect(old(self), final(self), old(sched)@, final(sched)@),
    ;

    /// A message that was sent in the round before arrived.
    fn receive_msg(&mut self, incoming_channel: ChannelId, msg: M, sched: &mut Scheduler<(), M>)
        requires
            old(self).sound(),
        ensures
            final(self).sound(),
            final(self).pid() == old(self).pid(),
            final(self).round() == old(self).round(),
            final(self).links() == old(self).links(),
            old(sched)@.extended_by(
                final(sched)@,
                component_may_schedule(old(self).pid(), old(self).links()),
            ),
            Self::message_effect(
                old(self),
                final(self),
                incoming_channel,
                msg,
                old(sched)@,
                final(sched)@,
            ),
    ;

    fn terminate(&mut self)
        requires
            old(self).sound(),
        ensures
            final(self).sound(),
            final(self).pid() == old(self).pid(),
            final(self).round() == old(self).round(),
            final(self).links() == old(self).links(),
            Self::terminate_effect(old(self), final(self)),
    ;
}

/// A synchronous process as a component of a run.
pub struct Synchronous<P> {
    pub process: P,
}

impl<M, P: SynchProcess<M>> Component<(), M> for Synchronous<P> {
    open spec fn inv(&self) -> bool {
        self.process.sound()
    }

    open spec fn id(&self) -> ComponentId {
        self.process.pid()
    }

    open spec fn attached(&self) -> Set<ChannelId> {
        self.process.links()
    }

    open spec fn channel_effect(pre: &Self, post: &Self, channel_id: ChannelId, label: ChannelLabel) -> bool {
        P::channel_effect(&pre.process, &post.process, channel_id, label)
    }

    open spec fn terminate_effect(pre: &Self, post: &Self) -> bool {
        P::terminate_effect(&pre.process, &post.process)
    }

    /// The process is prepared and asks to be woken at the current time.
    open spec fn init_effect(
        pre: &Self,
        post: &Self,
        before: SchedulerView<(), M>,
        after: SchedulerView<(), M>,
    ) -> bool {
        &&& P::init_effect(&pre.process, &post.process)
        &&& after == before.schedule(
            0,
            EventType::ProcessEvent(
                ComponentEvent {
                    sender: pre.process.pid(),
                    receiver: pre.process.pid(),
                    event: None,
                },
            ),
        )
    }

    /// The wake-up of round zero. The run is aborted where the wake-up
    /// comes from someone else, or later than at time zero.
    open spec fn event_effect(
        pre: &Self,
        post: &Self,
        sender: ComponentId,
        event: Option<()>,
        before: SchedulerView<(), M>,
        after: SchedulerView<(), M>,
    ) -> bool {
        if sender == pre.process.pid() && pre.process.round()@ == 0 && before.now == 0 {
            P::round_zero_effect(&pre.process, &post.process, before, after)
        } else {
            post.process == pre.process && after == before.fail()
        }
    }

    /// Where the message is the first of its round, the process is told of
    /// the new round before the message is delivered.
    open spec fn message_effect(
        pre: &Self,
        post: &Self,
        incoming_channel: ChannelId,
        msg: M,
        before: SchedulerView<(), M>,
        after: SchedulerView<(), M>,
    ) -> bool {
        if pre.process.round()@ / (NANOS_PER_SEC as nat) == before.now / (NANOS_PER_SEC as nat) {
            P::message_effect(&pre.process, &post.process, incoming_channel, msg, before, after)
        } else {
            exists|told: P, started: P, mid: SchedulerView<(), M>|
                {
                    &&& #[trigger] P::round_effect(
                        &pre.process,
                        &told,
                        SimTime::of_nanos(before.now),
                    )
                    &&& #[trigger] P::new_round_effect(&told, &started, before, mid)
                    &&& #[trigger] P::message_effect(
                        &started,
                        &post.process,
                        incoming_channel,
                        msg,
                        mid,
                        after,
                    )
                }
        }
    }

    fn sim_id(&self) -> (r: ComponentId) {
        self.process.id()
    }

    fn add_channel(&mut self, channel_id: ChannelId, label: ChannelLabel) {
        self.process.add_channel(channel_id, label);
    }

    /// The process is prepared and asks to be woken at the current time.
    fn init(&mut self, sched: &mut Scheduler<(), M>) {
        self.process.init();
        let id = self.process.id();
        proof {
            use_type_invariant(&*sched);
            sched.lemma_inv_wf();
            crate::scheduler::lemma_schedule_extends(
                sched@,
                0,
                EventType::ProcessEvent(ComponentEvent { sender: id, receiver: id, event: None }),
                component_may_schedule(id, self.process.links()),
            );
        }
        sched.sched_self_event(no_delta(), id);
    }

    /// The wake-up of round zero. The run is aborted where the wake-up
    /// comes from someone else, or later than at time zero.
    fn process_event(&mut self, sender: ComponentId, _event: Option<()>, sched: &mut Scheduler<(), M>) {
        proof {
            if sender.idx() == self.process.pid().idx() {
                ComponentId::lemma_idx_injective(sender, self.process.pid());
            }
        }
        let own = sender.as_idx() == self.process.id().as_idx();
        let fresh = self.process.get_curr_round().is_zero();
        let early = sched.get_curr_time().is_zero();
        if own && fresh && early {
            self.process.round_zero(sched);
        } else {
            proof {
                use_type_invariant(&*sched);
                sched.lemma_inv_wf();
                lemma_extended_refl(
                    sched@,
                    component_may_schedule(self.process.pid(), self.process.links()),
                );
            }
            sched.sim_error();
        }
    }

    /// Where the message is the first of its round, the process is told of
    /// the new round before the message is delivered.
    fn receive_msg(&mut self, incoming_channel: ChannelId, msg: M, sched: &mut Scheduler<(), M>) {
        let now = *sched.get_curr_time();
        let clock = now.as_nanos();
        proof {
            SimTime::lemma_of_nanos(clock as nat);
            SimTime::lemma_view_injective(now, SimTime::of_nanos(clock as nat));
        }
        let ghost start = sched@;
        let ghost allowed = component_may_schedule::<(), M>(
            self.process.pid(),
            self.process.links(),
        );
        proof {
            use_type_invariant(&*sched);
            sched.lemma_inv_wf();
            lemma_extended_refl(start, allowed);
        }
        let ghost first = self.process;
        let new_round = self.process.get_curr_round().as_rounds() != now.as_rounds();
        if new_round {
            self.process.set_curr_round(now);
            let ghost told = self.process;
            self.process.start_new_round(sched);
            proof {
                assert(P::round_effect(&first, &told, SimTime::of_nanos(start.now)));
                assert(P::new_round_effect(&told, &self.process, start, sched@));
            }
        }
        let ghost mid = sched@;
        let ghost started = self.process;
        self.process.receive_msg(incoming_channel, msg, sched);
        proof {
            lemma_extended_trans(start, mid, sched@, allowed);
            assert(P::message_effect(&started, &self.process, incoming_channel, msg, mid, sched@));
        }
    }

    fn terminate(&mut self) {
        self.process.terminate();
    }
}

} // verus!
