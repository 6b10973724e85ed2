//! Leader election in a ring after LeLann, Chang and Roberts. Every
//! process sends its identifier to its left neighbor and passes on what it
//! receives from the right if that is larger than its own. The process
//! that receives its own identifier is the leader and says so round the
//! ring.

use crate::component::{component_may_schedule, ChannelLabel, Component, ComponentBuilder};
use crate::keys::{ChannelId, ComponentId};
use crate::scheduler::{
    lemma_extended_refl, lemma_schedule_extends, ComponentEvent, EventType, MessageSendEvent,
    Scheduler,
};
use crate::simtime::{no_delta, SimTime};
use crate::synch::process::{ProcessId, SynchProcess, Synchronous};
use crate::util::uid::{UIdGenRandom, UniqueId};
use vstd::prelude::*;

verus! {

#[derive(Debug, Clone, Copy, PartialEq, Eq, Structural)]
pub enum ProcessState {
    /// The process does not know the leader yet.
    Unknown,
    /// The process is the leader.
    Leader,
    /// The process knows the leader and has said so to its neighbor.
    Terminated(UniqueId),
}

#[derive(Debug, Clone, Copy, PartialEq, Eq, Structural)]
pub enum Message {
    /// The identifier of a process that may still become the leader.
    SendUId(UniqueId),
    /// The identifier of the leader.
    Terminate(UniqueId),
}

impl Message {
    pub fn new_msg(uid: UniqueId) -> (r: Self)
        ensures
            r == Message::SendUId(uid),
    {
        Message::SendUId(uid)
    }

    pub fn new_terminate(leader: UniqueId) -> (r: Self)
        ensures
            r == Message::Terminate(leader),
    {
        Message::Terminate(leader)
    }
}

/// What a process does with a message.
pub enum Reaction {
    /// Send the message on to the left.
    Forward(Message),
    /// Do nothing.
    Discard,
    /// The message cannot be: abort the run.
    Refuse,
}

/// The state of the process `uid` in `state` after `msg` arrived from the
/// right, and what it does.
///
/// While it does not know the leader, a process passes on a larger
/// identifier than its own and drops a smaller one; its own makes it the
/// leader, and it says so. The leader's identifier, once announced, is
/// noted and passed on. The leader takes its own announcement back and
/// nothing else; a process that has passed the announcement on takes
/// nothing.
pub open spec fn react(state: ProcessState, uid: UniqueId, msg: Message) -> (ProcessState, Reaction) {
    match state {
        ProcessState::Unknown => match msg {
            Message::SendUId(sender) => if sender.0 > uid.0 {
                (state, Reaction::Forward(msg))
            } else if sender.0 < uid.0 {
                (state, Reaction::Discard)
            } else {
                (ProcessState::Leader, Reaction::Forward(Message::Terminate(uid)))
            },
            Message::Terminate(leader) => (
                ProcessState::Terminated(leader),
                Reaction::Forward(msg),
            ),
        },
        ProcessState::Leader => match msg {
            Message::Terminate(leader) => if leader == uid {
                (state, Reaction::Discard)
            } else {
                (state, Reaction::Refuse)
            },
            Message::SendUId(_) => (state, Reaction::Refuse),
        },
        ProcessState::Terminated(_) => (state, Reaction::Refuse),
    }
}

/// The queue after the process `p` has sent `msg` to its left neighbor: the
/// message is handed to the left channel at the current time, or the run
/// is aborted where the process has no left channel.
pub open spec fn sent_left<E>(
    v: crate::scheduler::SchedulerView<E, Message>,
    p: Process,
    msg: Message,
) -> crate::scheduler::SchedulerView<E, Message> {
    if p.left.idx() != usize::MAX {
        v.schedule(
            0,
            EventType::MsgSendEvent(
                MessageSendEvent { sender: p.component_id, channel: p.left, message: msg },
            ),
        )
    } else {
        v.fail()
    }
}

/// The queue after the process `p` has taken `msg` from
/// `incoming_channel`: what `react` forwards is sent to the left; a
/// message that `react` refuses, or one that did not come from the right,
/// aborts the run.
pub open spec fn taken<E>(
    v: crate::scheduler::SchedulerView<E, Message>,
    p: Process,
    incoming_channel: ChannelId,
    msg: Message,
) -> crate::scheduler::SchedulerView<E, Message> {
    if incoming_channel != p.right {
        v.fail()
    } else {
        match react(p.state, p.uid, msg).1 {
            Reaction::Forward(m) => sent_left(v, p, m),
            Reaction::Discard => v,
            Reaction::Refuse => v.fail(),
        }
    }
}

#[derive(Debug)]
pub struct Process {
    pub component_id: ComponentId,
    /// The channel to the left neighbor, on which the process sends.
    pub left: ChannelId,
    /// The channel from the right neighbor, on which the process receives.
    pub right: ChannelId,
    pub uid: UniqueId,
    pub state: ProcessState,
    /// In a synchronous network, the time of the round that the process
    /// is in.
    pub curr_round: SimTime,
}

impl Process {
    /// The channels that the process has been given.
    pub open spec fn channels(&self) -> Set<ChannelId> {
        Set::new(
            |c: ChannelId|
                c.idx() != usize::MAX && (c == self.left || c == self.right),
        )
    }

    /// A process that has no channels yet and does not know the leader.
    pub fn new(pid: ComponentId, uid: UniqueId) -> (r: Self)
        ensures
            r.component_id == pid,
            r.uid == uid,
            r.state == ProcessState::Unknown,
            r.left.idx() == usize::MAX,
            r.right.idx() == usize::MAX,
            r.curr_round@ == 0,
    {
        Process {
            component_id: pid,
            left: ChannelId::default(),
            right: ChannelId::default(),
            uid,
            state: ProcessState::Unknown,
            curr_round: SimTime::default(),
        }
    }

    /// The process with `channel_id` as its left or right channel.
    pub open spec fn with_channel(self, channel_id: ChannelId, label: ChannelLabel) -> Process {
        match label {
            ChannelLabel::Left => Process { left: channel_id, ..self },
            ChannelLabel::Right => Process { right: channel_id, ..self },
        }
    }

    /// The first message: the process's own identifier.
    pub fn round0(&self) -> (r: Message)
        ensures
            r == Message::SendUId(self.uid),
    {
        Message::new_msg(self.uid)
    }

    /// Take `msg`, which arrived from the right.
    pub fn round(&mut self, msg: Message) -> (r: Reaction)
        ensures
            (final(self).state, r) == react(old(self).state, old(self).uid, msg),
            final(self).component_id == old(self).component_id,
            final(self).left == old(self).left,
            final(self).right == old(self).right,
            final(self).uid == old(self).uid,
            final(self).curr_round == old(self).curr_round,
    {
        match self.state {
            ProcessState::Unknown => match msg {
                Message::SendUId(sender) => {
                    if sender.0 > self.uid.0 {
                        Reaction::Forward(msg)
                    } else if sender.0 < self.uid.0 {
                        Reaction::Discard
                    } else {
                        self.state = ProcessState::Leader;
                        Reaction::Forward(Message::new_terminate(self.uid))
                    }
                },
                Message::Terminate(leader) => {
                    self.state = ProcessState::Terminated(leader);
                    Reaction::Forward(msg)
                },
            },
            ProcessState::Leader => match msg {
                Message::Terminate(leader) => {
                    if leader.0 == self.uid.0 {
                        Reaction::Discard
                    } else {
                        Reaction::Refuse
                    }
                },
                Message::SendUId(_) => Reaction::Refuse,
            },
            ProcessState::Terminated(_) => Reaction::Refuse,
        }
    }

    /// Take `msg` from `incoming_channel`: a message from the right is
    /// taken as `react` says, one from elsewhere aborts the run.
    fn take<E>(&mut self, incoming_channel: ChannelId, msg: Message, sched: &mut Scheduler<E, Message>)
        ensures
            final(self).component_id == old(self).component_id,
            final(self).left == old(self).left,
            final(self).right == old(self).right,
            final(self).uid == old(self).uid,
            final(self).curr_round == old(self).curr_round,
            incoming_channel == old(self).right ==> final(self).state == react(
                old(self).state,
                old(self).uid,
                msg,
            ).0,
            incoming_channel != old(self).right ==> final(self).state == old(self).state,
            final(sched)@ == taken(old(sched)@, *old(self), incoming_channel, msg),
            old(sched)@.extended_by(
                final(sched)@,
                component_may_schedule(old(self).component_id, old(self).channels()),
            ),
    {
        proof {
            use_type_invariant(&*sched);
            sched.lemma_inv_wf();
            lemma_extended_refl(sched@, component_may_schedule(self.component_id, self.channels()));
            if incoming_channel.idx() == self.right.idx() {
                ChannelId::lemma_idx_injective(incoming_channel, self.right);
            }
        }
        if incoming_channel.as_idx() != self.right.as_idx() {
            sched.sim_error();
            return ;
        }
        match self.round(msg) {
            Reaction::Forward(m) => {
                assert(self.channels() == old(self).channels());
                self.send_left(m, sched);
            },
            Reaction::Discard => {},
            Reaction::Refuse => {
                sched.sim_error();
            },
        }
    }

    /// Send `msg` to the left neighbor, or abort the run where there is
    /// none.
    fn send_left<E>(&self, msg: Message, sched: &mut Scheduler<E, Message>)
        ensures
            final(sched)@ == sent_left(old(sched)@, *self, msg),
            old(sched)@.extended_by(
                final(sched)@,
                component_may_schedule(self.component_id, self.channels()),
            ),
    {
        proof {
            use_type_invariant(&*sched);
            sched.lemma_inv_wf();
            lemma_extended_refl(sched@, component_may_schedule(self.component_id, self.channels()));
        }
        if self.left.is_initialized() {
            proof {
                assert(self.channels().contains(self.left));
                lemma_schedule_extends(
                    sched@,
                    0,
                    EventType::MsgSendEvent(
                        MessageSendEvent { sender: self.component_id, channel: self.left, message: msg },
                    ),
                    component_may_schedule(self.component_id, self.channels()),
                );
            }
            sched.send_msg(self.component_id, self.left, msg);
        } else {
            sched.sim_error();
        }
    }
}

impl Component<(), Message> for Process {
    open spec fn inv(&self) -> bool {
        true
    }

    open spec fn id(&self) -> ComponentId {
        self.component_id
    }

    open spec fn attached(&self) -> Set<ChannelId> {
        self.channels()
    }

    /// The channel of which the process is the left endpoint leads to its
    /// left neighbor; the other one comes from its right neighbor.
    open spec fn channel_effect(pre: &Self, post: &Self, channel_id: ChannelId, label: ChannelLabel) -> bool {
        *post == pre.with_channel(channel_id, label)
    }

    open spec fn terminate_effect(pre: &Self, post: &Self) -> bool {
        *post == *pre
    }

    /// A process with both channels asks to be woken at the current time;
    /// one that lacks a channel aborts the run.
    open spec fn init_effect(
        pre: &Self,
        post: &Self,
        before: crate::scheduler::SchedulerView<(), Message>,
        after: crate::scheduler::SchedulerView<(), Message>,
    ) -> bool {
        &&& *post == *pre
        &&& after == if pre.left.idx() != usize::MAX && pre.right.idx() != usize::MAX {
            before.schedule(
                0,
                EventType::ProcessEvent(
                    ComponentEvent {
                        sender: pre.component_id,
                        receiver: pre.component_id,
                        event: None,
                    },
                ),
            )
        } else {
            before.fail()
        }
    }

    /// The wake-up starts the process: it sends its identifier to the
    /// left. A wake-up from someone else aborts the run.
    open spec fn event_effect(
        pre: &Self,
        post: &Self,
        sender: ComponentId,
        event: Option<()>,
        before: crate::scheduler::SchedulerView<(), Message>,
        after: crate::scheduler::SchedulerView<(), Message>,
    ) -> bool {
        &&& *post == *pre
        &&& after == if sender == pre.component_id {
            sent_left(before, *pre, Message::SendUId(pre.uid))
        } else {
            before.fail()
        }
    }

    /// A message from the right is taken as `react` says; one from
    /// elsewhere aborts the run.
    open spec fn message_effect(
        pre: &Self,
        post: &Self,
        incoming_channel: ChannelId,
        msg: Message,
        before: crate::scheduler::SchedulerView<(), Message>,
        after: crate::scheduler::SchedulerView<(), Message>,
    ) -> bool {
        &&& *post == Process {
            state: if incoming_channel == pre.right {
                react(pre.state, pre.uid, msg).0
            } else {
                pre.state
            },
            ..*pre
        }
        &&& after == taken(before, *pre, incoming_channel, msg)
    }

    fn sim_id(&self) -> (r: ComponentId) {
        self.component_id
    }

    /// The channel of which the process is the left endpoint leads to its
    /// left neighbor; the other one comes from its right neighbor.
    fn add_channel(&mut self, channel_id: ChannelId, label: ChannelLabel) {
        match label {
            ChannelLabel::Left => {
                self.left = channel_id
            },
            ChannelLabel::Right => {
                self.right = channel_id
            },
        }
    }

    /// A process with both channels asks to be woken at the current time;
    /// one that lacks a channel aborts the run.
    fn init(&mut self, sched: &mut Scheduler<(), Message>) {
        proof {
            use_type_invariant(&*sched);
            sched.lemma_inv_wf();
            lemma_extended_refl(sched@, component_may_schedule(self.component_id, self.channels()));
            lemma_schedule_extends(
                sched@,
                0,
                EventType::ProcessEvent(
                    ComponentEvent {
                        sender: self.component_id,
                        receiver: self.component_id,
                        event: None,
                    },
                ),
                component_may_schedule(self.component_id, self.channels()),
            );
        }
        if self.left.is_initialized() && self.right.is_initialized() {
            sched.sched_self_event(no_delta(), self.component_id);
        } else {
            sched.sim_error();
        }
    }

    /// The wake-up starts the process: it sends its identifier to the
    /// left. A wake-up from someone else aborts the run.
    fn process_event(&mut self, sender: ComponentId, _event: Option<()>, sched: &mut Scheduler<(), Message>) {
        proof {
            if sender.idx() == self.component_id.idx() {
                ComponentId::lemma_idx_injective(sender, self.component_id);
            }
        }
        if sender.as_idx() != self.component_id.as_idx() {
            proof {
                use_type_invariant(&*sched);
                sched.lemma_inv_wf();
                lemma_extended_refl(
                    sched@,
                    component_may_schedule(self.component_id, self.channels()),
                );
            }
            sched.sim_error();
            return ;
        }
        let msg = self.round0();
        self.send_left(msg, sched);
    }

    /// A message from the right is taken as `react` says; one from
    /// elsewhere aborts the run.
    fn receive_msg(&mut self, incoming_channel: ChannelId, msg: Message, sched: &mut Scheduler<(), Message>) {
        self.take(incoming_channel, msg, sched);
    }

    fn terminate(&mut self) {
    }
}

/// Makes processes with identifiers drawn at random below a bound, no two
/// alike.
pub struct ProcessBuilder {
    uid_gen: UIdGenRandom,
}

impl ProcessBuilder {
    /// The source of the identifiers.
    pub closed spec fn uids(&self) -> UIdGenRandom {
        self.uid_gen
    }

    pub fn new(max_uid: usize) -> (r: Self)
        ensures
            r.uids().wf(),
            r.uids().max() == max_uid,
            r.uids().generated() == Set::<usize>::empty(),
    {
        ProcessBuilder { uid_gen: UIdGenRandom::new(max_uid) }
    }

    /// The builder `pre` made the process `built` for `id`, and is `post`
    /// since.
    pub open spec fn made(pre: &Self, post: &Self, id: ComponentId, built: &Process) -> bool {
        &&& post.uids().wf()
        &&& post.uids().max() == pre.uids().max()
        &&& !pre.uids().generated().contains(built.uid.0)
        &&& post.uids().generated() == pre.uids().generated().insert(built.uid.0)
        &&& built.uid.0 < pre.uids().max()
        &&& built.component_id == id
        &&& built.state == ProcessState::Unknown
        &&& built.left.idx() == usize::MAX
        &&& built.right.idx() == usize::MAX
        &&& built.curr_round@ == 0
    }
}

impl ComponentBuilder<(), Message> for ProcessBuilder {
    type C = Process;

    /// There is an identifier left.
    open spec fn ready(&self) -> bool {
        self.uids().wf() && self.uids().generated().len() < self.uids().max()
    }

    /// A process without channels that does not know the leader, with an
    /// identifier that no process before it got.
    open spec fn builds(pre: &Self, post: &Self, id: ComponentId, built: &Process) -> bool {
        ProcessBuilder::made(pre, post, id, built)
    }

    fn build_component(&mut self, pid: ComponentId) -> (r: Process) {
        let uid = self.uid_gen.generate_uid();
        let r = Process::new(pid, uid);
        proof {
            assert(r.channels() =~= Set::<ChannelId>::empty());
        }
        r
    }
}

impl SynchProcess<Message> for Process {
    open spec fn sound(&self) -> bool {
        true
    }

    open spec fn pid(&self) -> ProcessId {
        self.component_id
    }

    open spec fn links(&self) -> Set<ChannelId> {
        self.channels()
    }

    open spec fn round(&self) -> SimTime {
        self.curr_round
    }

    open spec fn round_effect(pre: &Self, post: &Self, round: SimTime) -> bool {
        *post == Process { curr_round: round, ..*pre }
    }

    open spec fn init_effect(pre: &Self, post: &Self) -> bool {
        *post == *pre
    }

    open spec fn channel_effect(pre: &Self, post: &Self, channel_id: ChannelId, label: ChannelLabel) -> bool {
        *post == pre.with_channel(channel_id, label)
    }

    open spec fn terminate_effect(pre: &Self, post: &Self) -> bool {
        *post == *pre
    }

    /// The process sends its identifier to the left.
    open spec fn round_zero_effect(
        pre: &Self,
        post: &Self,
        before: crate::scheduler::SchedulerView<(), Message>,
        after: crate::scheduler::SchedulerView<(), Message>,
    ) -> bool {
        *post == *pre && after == sent_left(before, *pre, Message::SendUId(pre.uid))
    }

    /// Nothing happens at the start of a round.
    open spec fn new_round_effect(
        pre: &Self,
        post: &Self,
        before: crate::scheduler::SchedulerView<(), Message>,
        after: crate::scheduler::SchedulerView<(), Message>,
    ) -> bool {
        *post == *pre && after == before
    }

    /// A message from the right is taken as `react` says; one from
    /// elsewhere aborts the run.
    open spec fn message_effect(
        pre: &Self,
        post: &Self,
        incoming_channel: ChannelId,
        msg: Message,
        before: crate::scheduler::SchedulerView<(), Message>,
        after: crate::scheduler::SchedulerView<(), Message>,
    ) -> bool {
        &&& *post == Process {
            state: if incoming_channel == pre.right {
                react(pre.state, pre.uid, msg).0
            } else {
                pre.state
            },
            ..*pre
        }
        &&& after == taken(before, *pre, incoming_channel, msg)
    }

    fn id(&self) -> (r: ProcessId) {
        self.component_id
    }

    fn get_curr_round(&self) -> (r: &SimTime) {
        &self.curr_round
    }

    fn set_curr_round(&mut self, round: SimTime) {
        self.curr_round = round;
    }

    fn add_channel(&mut self, channel_id: ChannelId, label: ChannelLabel) {
        match label {
            ChannelLabel::Left => {
                self.left = channel_id
            },
            ChannelLabel::Right => {
                self.right = channel_id
            },
        }
    }

    fn init(&mut self) {
    }

    /// The process sends its identifier to the left.
    fn round_zero(&mut self, sched: &mut Scheduler<(), Message>) {
        let msg = self.round0();
        self.send_left(msg, sched);
    }

    /// Nothing happens at the start of a round.
    fn start_new_round(&mut self, sched: &mut Scheduler<(), Message>) {
        proof {
            use_type_invariant(&*sched);
            sched.lemma_inv_wf();
            lemma_extended_refl(sched@, component_may_schedule(self.component_id, self.channels()));
        }
    }

    /// A message from the right is taken as `react` says; one from
    /// elsewhere aborts the run.
    fn receive_msg(&mut self, incoming_channel: ChannelId, msg: Message, sched: &mut Scheduler<(), Message>) {
        self.take(incoming_channel, msg, sched);
    }

    fn terminate(&mut self) {
    }
}

/// Makes the processes of a synchronous ring.
pub struct SynchProcessBuilder {
    inner: ProcessBuilder,
}

impl SynchProcessBuilder {
    /// The builder of the processes.
    pub closed spec fn builder(&self) -> ProcessBuilder {
        self.inner
    }

    /// The source of the identifiers.
    pub closed spec fn uids(&self) -> UIdGenRandom {
        self.inner.uids()
    }

    pub fn new(max_uid: usize) -> (r: Self)
        ensures
            r.uids().wf(),
            r.uids().max() == max_uid,
            r.uids().generated() == Set::<usize>::empty(),
    {
        SynchProcessBuilder { inner: ProcessBuilder::new(max_uid) }
    }
}

impl ComponentBuilder<(), Message> for SynchProcessBuilder {
    type C = Synchronous<Process>;

    open spec fn ready(&self) -> bool {
        self.uids().wf() && self.uids().generated().len() < self.uids().max()
    }

    open spec fn builds(pre: &Self, post: &Self, id: ComponentId, built: &Synchronous<Process>) -> bool {
        ProcessBuilder::made(&pre.builder(), &post.builder(), id, &built.process)
    }

    fn build_component(&mut self, pid: ComponentId) -> (r: Synchronous<Process>) {
        let process = self.inner.build_component(pid);
        proof {
            assert(process.channels() =~= Set::<ChannelId>::empty());
        }
        Synchronous { process }
    }
}

/// `ring[leader]` is the leader: it has the largest identifier, and every
/// other process has terminated knowing it.
pub open spec fn elected(ring: Seq<&Process>, leader: int) -> bool {
    &&& 0 <= leader < ring.len()
    &&& ring[leader].state == ProcessState::Leader
    &&& forall|i: int| 0 <= i < ring.len() ==> ring[i].uid.0 <= ring[leader].uid.0
    &&& forall|i: int|
        0 <= i < ring.len() && i != leader ==> #[trigger] ring[i].state
            == ProcessState::Terminated(ring[leader].uid)
}

/// The ring has a leader.
pub open spec fn agreed(ring: Seq<&Process>) -> bool {
    exists|leader: int| elected(ring, leader)
}

/// Whether the election has ended as it should: there is a leader, there
/// is only one, it has the largest identifier, and every other process
/// knows it.
pub fn validate(processes: &[&Process]) -> (r: bool)
    ensures
        r == agreed(processes@),
{
    let ghost ring = processes@;
    let mut leader: Option<usize> = None;
    let mut known: Option<UniqueId> = None;
    let mut max_uid: usize = 0;
    let ghost mut max_at: int = 0;
    let ghost mut known_at: int = 0;
    let mut i: usize = 0;
    while i < processes.len()
        invariant
            ring == processes@,
            i <= ring.len(),
            forall|j: int| 0 <= j < i ==> ring[j].uid.0 <= max_uid,
            i == 0 ==> max_uid == 0,
            i > 0 ==> 0 <= max_at < i && ring[max_at].uid.0 == max_uid,
            forall|j: int| 0 <= j < i && leader != Some(j as usize)
                ==> (#[trigger] ring[j].state) is Terminated,
            leader matches Some(l) ==> l < i && ring[l as int].state == ProcessState::Leader,
            known matches Some(k) ==> 0 <= known_at < i && ring[known_at].state
                == ProcessState::Terminated(k),
            forall|j: int| 0 <= j < i && (#[trigger] ring[j].state) is Terminated
                ==> Some(ring[j].state->Terminated_0) == known,
        decreases processes.len() - i,
    {
        let process = processes[i];
        if process.uid.0 >= max_uid {
            max_uid = process.uid.0;
            proof {
                max_at = i as int;
            }
        }
        match process.state {
            ProcessState::Leader => {
                if leader.is_some() {
                    proof {
                        assert forall|l: int| !elected(ring, l) by {
                            if elected(ring, l) {
                                let first = leader.unwrap() as int;
                                assert(ring[first].state == ProcessState::Leader);
                                assert(ring[i as int].state == ProcessState::Leader);
                            }
                        }
                    }
                    return false;
                }
                leader = Some(i);
            },
            ProcessState::Terminated(uid) => {
                match known {
                    Some(k) => {
                        if k.0 != uid.0 {
                            proof {
                                assert forall|l: int| !elected(ring, l) by {
                                    if elected(ring, l) {
                                        assert(ring[known_at].state == ProcessState::Terminated(k));
                                        assert(ring[i as int].state == ProcessState::Terminated(uid));
                                    }
                                }
                            }
                            return false;
                        }
                    },
                    None => {
                        known = Some(uid);
                        proof {
                            known_at = i as int;
                        }
                    },
                }
            },
            ProcessState::Unknown => {
                proof {
                    assert forall|l: int| !elected(ring, l) by {
                        if elected(ring, l) {
                            assert(ring[i as int].state == ProcessState::Unknown);
                        }
                    }
                }
                return false;
            },
        }
        i += 1;
    }
    let r = match leader {
        Some(l) => processes[l].uid.0 == max_uid && match known {
            Some(k) => k.0 == processes[l].uid.0,
            None => true,
        },
        None => false,
    };
    proof {
        if r {
            let l = leader.unwrap() as int;
            assert(elected(ring, l));
        } else {
            assert forall|l: int| !elected(ring, l) by {
                if elected(ring, l) {
                    assert(ring[l].state == ProcessState::Leader);
                    assert(leader == Some(l as usize));
                    assert(ring[max_at].uid.0 <= ring[l].uid.0);
                    if known is Some {
                        assert(ring[known_at].state == ProcessState::Terminated(known.unwrap()));
                    }
                }
            }
        }
    }
    r
}

} // verus!
