//! The event queue: pending events ordered by target time, and among equal
//! times by the order in which they were scheduled. The queue owns the
//! simulated clock and the run's failure flag.

use crate::environment::Environment;
use crate::keys::{ChannelId, ComponentId};
use crate::simtime::{clamp_nanos, SimTime, SimTimeDelta, MAX_NANOS};
use vstd::prelude::*;

verus! {

/// A wake-up of `receiver`, asked for by `sender`, with an optional payload.
#[derive(Debug)]
pub struct ComponentEvent<E> {
    pub sender: ComponentId,
    pub receiver: ComponentId,
    pub event: Option<E>,
}

/// `sender` hands `message` to `channel`.
#[derive(Debug)]
pub struct MessageSendEvent<M> {
    pub sender: ComponentId,
    pub channel: ChannelId,
    pub message: M,
}

/// `message` arrives at `receiver` over `channel`.
#[derive(Debug)]
pub struct MessageRcvEvent<M> {
    pub channel: ChannelId,
    pub receiver: ComponentId,
    pub message: M,
}

#[derive(Debug)]
pub enum EventType<E, M> {
    ProcessEvent(ComponentEvent<E>),
    MsgSendEvent(MessageSendEvent<M>),
    MsgRcvEvent(MessageRcvEvent<M>),
    EndSimulation,
}

#[derive(Debug, Copy, Clone, PartialEq, Eq, Structural)]
pub enum SimStatus {
    Success,
    Failure,
}

/// One entry of the queue as contracts see it.
pub struct Pending<E, M> {
    /// Target time in nanoseconds.
    pub time: nat,
    /// How many events had been scheduled before this one.
    pub seq: nat,
    pub event: EventType<E, M>,
}

/// The queue as contracts see it.
pub struct SchedulerView<E, M> {
    /// Current time in nanoseconds.
    pub now: nat,
    /// Whether the failure flag is set.
    pub failed: bool,
    /// How many events have been scheduled so far.
    pub next_seq: nat,
    /// The pending events in the order in which they will be delivered.
    pub pending: Seq<Pending<E, M>>,
}

/// How many entries of `q` have a target time of at most `time`.
pub open spec fn due_count<E, M>(q: Seq<Pending<E, M>>, time: nat) -> nat
    decreases q.len(),
{
    if q.len() == 0 {
        0
    } else {
        due_count(q.drop_last(), time) + if q.last().time <= time {
            1nat
        } else {
            0nat
        }
    }
}

/// `a` is delivered before `b`: it is due earlier, or at the same time and
/// was scheduled first.
pub open spec fn delivered_before<E, M>(a: Pending<E, M>, b: Pending<E, M>) -> bool {
    a.time < b.time || (a.time == b.time && a.seq < b.seq)
}

impl<E, M> SchedulerView<E, M> {
    /// The queue is in delivery order, nothing is due in the past, and no
    /// entry is the end-of-simulation marker.
    pub open spec fn wf(self) -> bool {
        &&& self.now <= MAX_NANOS
        &&& forall|i: int, j: int|
            0 <= i < j < self.pending.len() ==> delivered_before(
                #[trigger] self.pending[i],
                #[trigger] self.pending[j],
            )
        &&& forall|i: int|
            0 <= i < self.pending.len() ==> {
                &&& self.now <= (#[trigger] self.pending[i]).time <= MAX_NANOS
                &&& self.pending[i].seq < self.next_seq
                &&& !(self.pending[i].event is EndSimulation)
            }
    }

    /// The target time of an event scheduled `delta` nanoseconds from now.
    pub open spec fn target(self, delta: nat) -> nat {
        clamp_nanos((self.now + delta) as int)
    }

    /// The entry that scheduling `event` at `delta` from now adds.
    pub open spec fn entry(self, delta: nat, event: EventType<E, M>) -> Pending<E, M> {
        Pending { time: self.target(delta), seq: self.next_seq, event }
    }

    /// The queue after `event` has been scheduled `delta` nanoseconds from
    /// now: the new entry stands behind every entry due at or before its
    /// target time and in front of every entry due later.
    pub open spec fn schedule(self, delta: nat, event: EventType<E, M>) -> Self {
        SchedulerView {
            now: self.now,
            failed: self.failed,
            next_seq: self.next_seq + 1,
            pending: self.pending.insert(
                due_count(self.pending, self.target(delta)) as int,
                self.entry(delta, event),
            ),
        }
    }

    /// Whether the next call of `next_event` reports the end of the run.
    pub open spec fn at_end(self) -> bool {
        self.failed || self.pending.len() == 0
    }

    /// The queue after its first entry has been delivered.
    pub open spec fn advance(self) -> Self
        recommends
            self.pending.len() > 0,
    {
        SchedulerView {
            now: self.pending[0].time,
            failed: self.failed,
            next_seq: self.next_seq,
            pending: self.pending.skip(1),
        }
    }

    /// The queue with the failure flag set.
    pub open spec fn fail(self) -> Self {
        SchedulerView { now: self.now, failed: true, next_seq: self.next_seq, pending: self.pending }
    }

    /// `post` arose from `self` without the clock moving: nothing pending
    /// was lost, every entry scheduled since satisfies `allowed`, and the
    /// failure flag was not cleared.
    pub open spec fn extended_by(self, post: Self, allowed: spec_fn(EventType<E, M>) -> bool) -> bool {
        &&& post.now == self.now
        &&& self.failed ==> post.failed
        &&& self.next_seq <= post.next_seq
        &&& forall|i: int|
            0 <= i < self.pending.len() ==> post.pending.contains(#[trigger] self.pending[i])
        &&& forall|i: int|
            0 <= i < post.pending.len() && (#[trigger] post.pending[i]).seq < self.next_seq
                ==> self.pending.contains(post.pending[i])
        &&& forall|i: int|
            0 <= i < post.pending.len() && (#[trigger] post.pending[i]).seq >= self.next_seq
                ==> allowed(post.pending[i].event)
    }
}

/// In a queue in delivery order the entries due at or before `time` are
/// exactly the first `due_count` ones.
pub proof fn lemma_due_count_splits<E, M>(q: Seq<Pending<E, M>>, time: nat, k: int)
    requires
        0 <= k <= q.len(),
        forall|i: int| 0 <= i < k ==> (#[trigger] q[i]).time <= time,
        forall|i: int| k <= i < q.len() ==> (#[trigger] q[i]).time > time,
    ensures
        due_count(q, time) == k,
    decreases q.len(),
{
    if q.len() > 0 {
        let front = q.drop_last();
        if k == q.len() {
            lemma_due_count_splits(front, time, k - 1);
        } else {
            lemma_due_count_splits(front, time, k);
        }
    }
}

pub proof fn lemma_due_count_bounds<E, M>(q: Seq<Pending<E, M>>, time: nat)
    ensures
        due_count(q, time) <= q.len(),
    decreases q.len(),
{
    if q.len() > 0 {
        lemma_due_count_bounds(q.drop_last(), time);
    }
}

/// In a queue ordered by target time, `due_count` separates the entries
/// due at or before `time` from those due later.
pub proof fn lemma_due_count_sorted<E, M>(q: Seq<Pending<E, M>>, time: nat)
    requires
        forall|i: int, j: int|
            0 <= i < j < q.len() ==> (#[trigger] q[i]).time <= (#[trigger] q[j]).time,
    ensures
        due_count(q, time) <= q.len(),
        forall|i: int| 0 <= i < due_count(q, time) ==> (#[trigger] q[i]).time <= time,
        forall|i: int| due_count(q, time) <= i < q.len() ==> (#[trigger] q[i]).time > time,
    decreases q.len(),
{
    if q.len() > 0 {
        let front = q.drop_last();
        assert forall|i: int, j: int| 0 <= i < j < front.len() implies (#[trigger] front[i]).time
            <= (#[trigger] front[j]).time by {
            assert(front[i] == q[i] && front[j] == q[j]);
        }
        lemma_due_count_sorted(front, time);
        let k = due_count(front, time) as int;
        if q.last().time <= time {
            if k < front.len() {
                assert(front[k].time > time);
                assert(front[k] == q[k]);
                assert(q[k].time <= q[q.len() - 1].time);
            }
        }
        assert forall|i: int| 0 <= i < due_count(q, time) implies (#[trigger] q[i]).time
            <= time by {
            if i < front.len() {
                assert(front[i] == q[i]);
            }
        }
        assert forall|i: int| due_count(q, time) <= i < q.len() implies (#[trigger] q[i]).time
            > time by {
            if i < front.len() {
                assert(front[i] == q[i]);
            }
        }
    }
}

/// Scheduling keeps the queue well formed.
pub proof fn lemma_schedule_wf<E, M>(v: SchedulerView<E, M>, delta: nat, event: EventType<E, M>)
    requires
        v.wf(),
        !(event is EndSimulation),
    ensures
        v.schedule(delta, event).wf(),
{
    let t = v.target(delta);
    let k = due_count(v.pending, t) as int;
    let e = v.entry(delta, event);
    let post = v.schedule(delta, event);
    assert forall|i: int, j: int| 0 <= i < j < v.pending.len() implies (#[trigger] v.pending[i]).time
        <= (#[trigger] v.pending[j]).time by {
        assert(delivered_before(v.pending[i], v.pending[j]));
    }
    lemma_due_count_sorted(v.pending, t);
    assert forall|i: int, j: int| 0 <= i < j < post.pending.len() implies delivered_before(
        #[trigger] post.pending[i],
        #[trigger] post.pending[j],
    ) by {
        if i < k && j < k {
        } else if i < k && j == k {
            assert(v.pending[i].time <= t);
        } else if i < k && j > k {
            assert(post.pending[j] == v.pending[j - 1]);
        } else if i == k {
            assert(post.pending[j] == v.pending[j - 1]);
        } else {
            assert(post.pending[i] == v.pending[i - 1]);
            assert(post.pending[j] == v.pending[j - 1]);
        }
    }
    assert forall|i: int| 0 <= i < post.pending.len() implies {
        &&& post.now <= (#[trigger] post.pending[i]).time <= MAX_NANOS
        &&& post.pending[i].seq < post.next_seq
        &&& !(post.pending[i].event is EndSimulation)
    } by {
        if i < k {
        } else if i == k {
        } else {
            assert(post.pending[i] == v.pending[i - 1]);
        }
    }
}

/// Scheduling an allowed event extends the queue.
pub proof fn lemma_schedule_extends<E, M>(
    v: SchedulerView<E, M>,
    delta: nat,
    event: EventType<E, M>,
    allowed: spec_fn(EventType<E, M>) -> bool,
)
    requires
        v.wf(),
        allowed(event),
    ensures
        v.extended_by(v.schedule(delta, event), allowed),
{
    let t = v.target(delta);
    let k = due_count(v.pending, t) as int;
    let post = v.schedule(delta, event);
    lemma_due_count_bounds(v.pending, t);
    assert forall|i: int| 0 <= i < v.pending.len() implies post.pending.contains(
        #[trigger] v.pending[i],
    ) by {
        if i < k {
            assert(post.pending[i] == v.pending[i]);
        } else {
            assert(post.pending[i + 1] == v.pending[i]);
        }
    }
    assert forall|i: int|
        0 <= i < post.pending.len() && (#[trigger] post.pending[i]).seq < v.next_seq
            implies v.pending.contains(post.pending[i]) by {
        if i < k {
            assert(post.pending[i] == v.pending[i]);
        } else if i > k {
            assert(post.pending[i] == v.pending[i - 1]);
        }
    }
    assert forall|i: int|
        0 <= i < post.pending.len() && (#[trigger] post.pending[i]).seq >= v.next_seq
            implies allowed(post.pending[i].event) by {
        if i < k {
            assert(post.pending[i] == v.pending[i]);
        } else if i > k {
            assert(post.pending[i] == v.pending[i - 1]);
        }
    }
}

/// Every queue extends itself, and so does the same queue with the failure
/// flag set.
pub proof fn lemma_extended_refl<E, M>(
    v: SchedulerView<E, M>,
    allowed: spec_fn(EventType<E, M>) -> bool,
)
    requires
        v.wf(),
    ensures
        v.extended_by(v, allowed),
        v.extended_by(v.fail(), allowed),
{
}

/// Extension is transitive.
pub proof fn lemma_extended_trans<E, M>(
    a: SchedulerView<E, M>,
    b: SchedulerView<E, M>,
    c: SchedulerView<E, M>,
    allowed: spec_fn(EventType<E, M>) -> bool,
)
    requires
        a.extended_by(b, allowed),
        b.extended_by(c, allowed),
    ensures
        a.extended_by(c, allowed),
{
    assert forall|i: int| 0 <= i < a.pending.len() implies c.pending.contains(
        #[trigger] a.pending[i],
    ) by {
        assert(b.pending.contains(a.pending[i]));
        let j = choose|j: int| 0 <= j < b.pending.len() && b.pending[j] == a.pending[i];
        assert(c.pending.contains(b.pending[j]));
    }
    assert forall|i: int|
        0 <= i < c.pending.len() && (#[trigger] c.pending[i]).seq < a.next_seq
            implies a.pending.contains(c.pending[i]) by {
        assert(b.pending.contains(c.pending[i]));
        let j = choose|j: int| 0 <= j < b.pending.len() && b.pending[j] == c.pending[i];
        assert(a.pending.contains(b.pending[j]));
    }
    assert forall|i: int|
        0 <= i < c.pending.len() && (#[trigger] c.pending[i]).seq >= a.next_seq implies allowed(
        c.pending[i].event,
    ) by {
        if c.pending[i].seq < b.next_seq {
            assert(b.pending.contains(c.pending[i]));
            let j = choose|j: int| 0 <= j < b.pending.len() && b.pending[j] == c.pending[i];
            assert(allowed(b.pending[j].event));
        }
    }
}

/// Scheduling one more allowed event, or raising the failure flag, extends
/// what was extended before.
pub proof fn lemma_extended_step<E, M>(
    a: SchedulerView<E, M>,
    b: SchedulerView<E, M>,
    delta: nat,
    event: EventType<E, M>,
    allowed: spec_fn(EventType<E, M>) -> bool,
)
    requires
        a.extended_by(b, allowed),
        b.wf(),
        allowed(event),
    ensures
        a.extended_by(b.schedule(delta, event), allowed),
        a.extended_by(b.fail(), allowed),
{
    lemma_schedule_extends(b, delta, event, allowed);
    lemma_extended_trans(a, b, b.schedule(delta, event), allowed);
    lemma_extended_refl(b, allowed);
    lemma_extended_trans(a, b, b.fail(), allowed);
}

/// Raising the failure flag extends what was extended before.
pub proof fn lemma_extended_fail<E, M>(
    a: SchedulerView<E, M>,
    b: SchedulerView<E, M>,
    allowed: spec_fn(EventType<E, M>) -> bool,
)
    requires
        a.extended_by(b, allowed),
        b.wf(),
    ensures
        a.extended_by(b.fail(), allowed),
{
    lemma_extended_refl(b, allowed);
    lemma_extended_trans(a, b, b.fail(), allowed);
}

/// The queue after the events of `calls` have been scheduled one after the
/// other, each with its delay.
pub open spec fn schedule_all<E, M>(
    v: SchedulerView<E, M>,
    calls: Seq<(nat, EventType<E, M>)>,
) -> SchedulerView<E, M>
    decreases calls.len(),
{
    if calls.len() == 0 {
        v
    } else {
        schedule_all(v, calls.drop_last()).schedule(calls.last().0, calls.last().1)
    }
}

/// The entry that the call `k` of `calls` adds to the queue `v`.
pub open spec fn entry_of<E, M>(
    v: SchedulerView<E, M>,
    calls: Seq<(nat, EventType<E, M>)>,
    k: int,
) -> Pending<E, M> {
    Pending { time: v.target(calls[k].0), seq: (v.next_seq + k) as nat, event: calls[k].1 }
}

/// A row of schedule calls leaves the clock alone, keeps the queue well
/// formed, keeps what was pending, and adds one entry per call.
pub proof fn lemma_schedule_all<E, M>(v: SchedulerView<E, M>, calls: Seq<(nat, EventType<E, M>)>)
    requires
        v.wf(),
        forall|k: int| 0 <= k < calls.len() ==> !((#[trigger] calls[k]).1 is EndSimulation),
    ensures
        schedule_all(v, calls).wf(),
        schedule_all(v, calls).now == v.now,
        schedule_all(v, calls).failed == v.failed,
        schedule_all(v, calls).next_seq == v.next_seq + calls.len(),
        schedule_all(v, calls).pending.len() == v.pending.len() + calls.len(),
        forall|i: int|
            0 <= i < v.pending.len() ==> schedule_all(v, calls).pending.contains(
                #[trigger] v.pending[i],
            ),
        forall|k: int|
            0 <= k < calls.len() ==> schedule_all(v, calls).pending.contains(
                #[trigger] entry_of(v, calls, k),
            ),
    decreases calls.len(),
{
    if calls.len() > 0 {
        let front = calls.drop_last();
        let mid = schedule_all(v, front);
        assert forall|k: int| 0 <= k < front.len() implies !((#[trigger] front[k]).1 is EndSimulation) by {
            assert(front[k] == calls[k]);
        }
        lemma_schedule_all(v, front);
        let last = calls[calls.len() - 1];
        let after = mid.schedule(last.0, last.1);
        lemma_schedule_wf(mid, last.0, last.1);
        let all = |e: EventType<E, M>| true;
        lemma_schedule_extends(mid, last.0, last.1, all);
        lemma_due_count_bounds(mid.pending, mid.target(last.0));
        let pos = due_count(mid.pending, mid.target(last.0)) as int;
        assert forall|i: int| 0 <= i < v.pending.len() implies after.pending.contains(
            #[trigger] v.pending[i],
        ) by {
            assert(mid.pending.contains(v.pending[i]));
            let j = choose|j: int| 0 <= j < mid.pending.len() && mid.pending[j] == v.pending[i];
            assert(after.pending.contains(mid.pending[j]));
        }
        assert forall|k: int| 0 <= k < calls.len() implies after.pending.contains(
            #[trigger] entry_of(v, calls, k),
        ) by {
            if k < front.len() {
                assert(entry_of(v, calls, k) == entry_of(v, front, k));
                assert(mid.pending.contains(entry_of(v, front, k)));
                let j = choose|j: int|
                    0 <= j < mid.pending.len() && mid.pending[j] == entry_of(v, front, k);
                assert(after.pending.contains(mid.pending[j]));
            } else {
                assert(after.pending[pos] == entry_of(v, calls, k));
            }
        }
    }
}

/// Of the events of a row of schedule calls, those with the same target
/// time stand in the queue, and so are delivered, in the order of the
/// calls.
pub proof fn lemma_equal_times_in_call_order<E, M>(
    v: SchedulerView<E, M>,
    calls: Seq<(nat, EventType<E, M>)>,
    i: int,
    j: int,
)
    requires
        v.wf(),
        forall|k: int| 0 <= k < calls.len() ==> !((#[trigger] calls[k]).1 is EndSimulation),
        0 <= i < j < calls.len(),
        v.target(calls[i].0) == v.target(calls[j].0),
    ensures
        exists|a: int, b: int|
            0 <= a < b < schedule_all(v, calls).pending.len() && schedule_all(v, calls).pending[a]
                == entry_of(v, calls, i) && schedule_all(v, calls).pending[b] == entry_of(
                v,
                calls,
                j,
            ),
{
    lemma_schedule_all(v, calls);
    let q = schedule_all(v, calls).pending;
    let first = entry_of(v, calls, i);
    let second = entry_of(v, calls, j);
    assert(q.contains(first));
    assert(q.contains(second));
    let a = choose|a: int| 0 <= a < q.len() && q[a] == first;
    let b = choose|b: int| 0 <= b < q.len() && q[b] == second;
    if b < a {
        assert(delivered_before(q[b], q[a]));
    }
    assert(a != b);
}

/// In a well-formed queue every entry is due at or after the current time
/// and no entry is due before the one in front of it, so the clock, which
/// moves to the target time of each entry that is delivered, never runs
/// backwards.
pub proof fn lemma_delivery_times_ascend<E, M>(v: SchedulerView<E, M>)
    requires
        v.wf(),
    ensures
        forall|i: int| 0 <= i < v.pending.len() ==> v.now <= (#[trigger] v.pending[i]).time,
        forall|i: int, j: int|
            0 <= i <= j < v.pending.len() ==> (#[trigger] v.pending[i]).time <= (
            #[trigger] v.pending[j]).time,
        v.pending.len() > 0 ==> v.advance().wf() && v.now <= v.advance().now,
{
    assert forall|i: int, j: int| 0 <= i <= j < v.pending.len() implies (#[trigger] v.pending[i]).time
        <= (#[trigger] v.pending[j]).time by {
        if i < j {
            assert(delivered_before(v.pending[i], v.pending[j]));
        }
    }
    if v.pending.len() > 0 {
        let w = v.advance();
        assert forall|i: int, j: int| 0 <= i < j < w.pending.len() implies delivered_before(
            #[trigger] w.pending[i],
            #[trigger] w.pending[j],
        ) by {
            assert(delivered_before(v.pending[i + 1], v.pending[j + 1]));
        }
        assert forall|i: int| 0 <= i < w.pending.len() implies {
            &&& w.now <= (#[trigger] w.pending[i]).time <= MAX_NANOS
            &&& w.pending[i].seq < w.next_seq
            &&& !(w.pending[i].event is EndSimulation)
        } by {
            assert(w.pending[i] == v.pending[i + 1]);
            assert(delivered_before(v.pending[0], v.pending[i + 1]));
        }
    }
}

/// An event scheduled `delta` after the current time is due exactly then,
/// as long as the clock can represent that time, and never before the
/// current time.
pub proof fn lemma_target_time<E, M>(v: SchedulerView<E, M>, delta: nat, event: EventType<E, M>)
    requires
        v.wf(),
    ensures
        v.now + delta <= MAX_NANOS ==> v.entry(delta, event).time == v.now + delta,
        v.entry(delta, event).time >= v.now,
        v.schedule(delta, event).pending.contains(v.entry(delta, event)),
{
    lemma_due_count_bounds(v.pending, v.target(delta));
    let pos = due_count(v.pending, v.target(delta)) as int;
    assert(v.schedule(delta, event).pending[pos] == v.entry(delta, event));
}

struct ScheduledEvent<E, M> {
    time: SimTime,
    index: usize,
    seq: Ghost<nat>,
    event: EventType<E, M>,
}

impl<E, M> ScheduledEvent<E, M> {
    spec fn model(self) -> Pending<E, M> {
        Pending { time: self.time@, seq: self.seq@, event: self.event }
    }
}

/// The labels that events carry in traces repeat after this many events.
pub open spec fn label_modulus() -> nat {
    (usize::MAX + 1) as nat
}

/// Counting one further keeps the label in step with the count.
proof fn lemma_next_label(seq: nat, m: nat)
    requires
        m > 0,
    ensures
        (seq + 1) % m == if seq % m == m - 1 {
            0
        } else {
            seq % m + 1
        },
{
    vstd::arithmetic::div_mod::lemma_fundamental_div_mod(seq as int, m as int);
    let q = seq as int / m as int;
    let r = seq as int % m as int;
    vstd::arithmetic::div_mod::lemma_mod_bound(seq as int, m as int);
    if r == m - 1 {
        assert(seq as int + 1 == (q + 1) * (m as int)) by (nonlinear_arith)
            requires
                seq as int == (m as int) * q + r,
                r == m as int - 1,
        ;
        vstd::arithmetic::div_mod::lemma_mod_multiples_basic(q + 1, m as int);
    } else {
        assert(seq as int + 1 == q * (m as int) + (r + 1)) by (nonlinear_arith)
            requires
                seq as int == (m as int) * q + r,
        ;
        vstd::arithmetic::div_mod::lemma_fundamental_div_mod_converse(
            seq as int + 1,
            m as int,
            q,
            r + 1,
        );
    }
}

/// The number of events scheduled so far, and the label of the next one.
struct Stamp {
    label: usize,
    seq: Ghost<nat>,
}

pub struct Scheduler<E, M> {
    // in reverse delivery order: the last entry is delivered next
    events: Vec<ScheduledEvent<E, M>>,
    curr_time: SimTime,
    env: Environment,
    sim_status: SimStatus,
    next_event: Stamp,
}

impl<E, M> View for Scheduler<E, M> {
    type V = SchedulerView<E, M>;

    closed spec fn view(&self) -> SchedulerView<E, M> {
        SchedulerView {
            now: self.curr_time@,
            failed: self.sim_status == SimStatus::Failure,
            next_seq: self.next_event.seq@,
            pending: Seq::new(
                self.events@.len(),
                |i: int| self.events@[self.events@.len() - 1 - i].model(),
            ),
        }
    }
}

impl<E, M> Scheduler<E, M> {
    #[verifier::type_invariant]
    pub closed spec fn inv(self) -> bool {
        &&& self@.wf()
        &&& self.next_event.label == self.next_event.seq@ % label_modulus()
        &&& forall|i: int|
            0 <= i < self.events@.len() ==> (#[trigger] self.events@[i]).index
                == self.events@[i].seq@ % label_modulus()
    }

    /// Every scheduler that executable code can hold is well formed.
    pub proof fn lemma_inv_wf(self)
        requires
            self.inv(),
        ensures
            self@.wf(),
    {
    }

    /// The label of the entry that is delivered next, if there is one.
    pub open spec fn next_label(self) -> Option<usize> {
        if self@.pending.len() == 0 {
            None
        } else {
            Some((self@.pending[0].seq % label_modulus()) as usize)
        }
    }

    pub fn new() -> (r: Self)
        ensures
            r.inv(),
            r@.now == 0,
            !r@.failed,
            r@.next_seq == 0,
            r@.pending.len() == 0,
    {
        Scheduler {
            events: Vec::new(),
            curr_time: SimTime::default(),
            env: Environment::default(),
            sim_status: SimStatus::Success,
            next_event: Stamp { label: 0, seq: Ghost(0) },
        }
    }

    pub fn get_curr_time(&self) -> (r: &SimTime)
        ensures
            r@ == self@.now,
    {
        &self.curr_time
    }

    /// The settings of the run.
    pub fn env(&self) -> &Environment {
        &self.env
    }

    /// The number of pending events.
    pub fn pending_count(&self) -> (r: usize)
        ensures
            r == self@.pending.len(),
    {
        self.events.len()
    }

    /// The label of the event that `next_event` would deliver from a run
    /// that has not failed: its insertion number, counted from 0 and
    /// starting over after `usize::MAX`.
    pub fn peek_index(&self) -> (r: Option<usize>)
        ensures
            r == self.next_label(),
    {
        proof {
            use_type_invariant(self);
        }
        let n = self.events.len();
        if n == 0 {
            None
        } else {
            Some(self.events[n - 1].index)
        }
    }

    /// Deliver the next event. A failed run, or an empty queue, yields
    /// `EndSimulation` and leaves everything as it is; otherwise the first
    /// pending event is removed and the clock moves to its target time.
    pub fn next_event(&mut self) -> (ev: EventType<E, M>)
        ensures
            final(self).inv(),
            old(self)@.at_end() ==> ev is EndSimulation && final(self)@ == old(self)@,
            !old(self)@.at_end() ==> ev == old(self)@.pending[0].event && final(self)@ == old(self)@.advance() && !(ev is EndSimulation),
            old(self)@.now <= final(self)@.now,
    {
        proof {
            use_type_invariant(&*self);
        }
        if self.sim_status == SimStatus::Failure {
            return EventType::EndSimulation;
        }
        let ghost before = self.events@;
        let mut events: Vec<ScheduledEvent<E, M>> = Vec::new();
        std::mem::swap(&mut self.events, &mut events);
        let head = events.pop();
        proof {
            let n = before.len() as int;
            let rest = Seq::new(events@.len(), |i: int| events@[events@.len() - 1 - i].model());
            if n > 0 {
                assert forall|i: int| 0 <= i < n - 1 implies events@[i] == before[i] by {}
                assert forall|i: int| 0 <= i < n - 1 implies (#[trigger] rest[i]) == old(self)@.pending[i + 1] by {}
                assert(rest =~= old(self)@.pending.skip(1));
            } else {
                assert(rest =~= old(self)@.pending);
            }
        }
        std::mem::swap(&mut self.events, &mut events);
        match head {
            None => {
                proof {
                    assert(self@.pending =~= old(self)@.pending);
                }
                EventType::EndSimulation
            },
            Some(entry) => {
                proof {
                    let n = before.len() as int;
                    assert(old(self)@.pending[0] == before[n - 1].model());
                    assert(entry == before[n - 1]);
                    assert forall|i: int| 0 <= i < n - 1 implies self.events@[i] == before[i] by {}
                    assert forall|i: int| 0 <= i < n - 1 implies (#[trigger] old(self)@.pending[i + 1]) == self.events@[n - 2 - i].model() by {}
                    assert forall|i: int| 0 < i < n implies delivered_before(
                        old(self)@.pending[0],
                        #[trigger] old(self)@.pending[i],
                    ) by {}
                    assert(self@.pending =~= old(self)@.pending.skip(1));
                }
                self.curr_time = entry.time;
                proof {
                    assert(self@.pending =~= old(self)@.pending.skip(1));
                }
                entry.event
            },
        }
    }

    pub fn sim_status(&self) -> (r: Result<(), ()>)
        ensures
            r.is_err() == self@.failed,
    {
        match self.sim_status {
            SimStatus::Success => Result::Ok(()),
            SimStatus::Failure => Result::Err(()),
        }
    }

    /// Whether the failure flag is set.
    pub fn has_failed(&self) -> (r: bool)
        ensures
            r == self@.failed,
    {
        self.sim_status == SimStatus::Failure
    }

    /// Hand `message` to `channel` on behalf of `sender`, `timedelta` from
    /// now.
    pub fn send_msg_delayed(
        &mut self,
        timedelta: SimTimeDelta,
        sender: ComponentId,
        channel: ChannelId,
        message: M,
    )
        ensures
            final(self).inv(),
            final(self)@ == old(self)@.schedule(
                timedelta@,
                EventType::MsgSendEvent(MessageSendEvent { sender, channel, message }),
            ),
    {
        self.push_event(
            timedelta,
            EventType::MsgSendEvent(MessageSendEvent { sender, channel, message }),
        );
    }

    /// Hand `message` to `channel` on behalf of `sender` at the current
    /// time.
    pub fn send_msg(&mut self, sender: ComponentId, channel: ChannelId, message: M)
        ensures
            final(self).inv(),
            final(self)@ == old(self)@.schedule(
                0,
                EventType::MsgSendEvent(MessageSendEvent { sender, channel, message }),
            ),
    {
        self.send_msg_delayed(crate::simtime::no_delta(), sender, channel, message);
    }

    /// Deliver `message` to `receiver` over `channel`, `timedelta` from now.
    pub fn sched_receive_msg(
        &mut self,
        timedelta: SimTimeDelta,
        receiver: ComponentId,
        channel: ChannelId,
        message: M,
    )
        ensures
            final(self).inv(),
            final(self)@ == old(self)@.schedule(
                timedelta@,
                EventType::MsgRcvEvent(MessageRcvEvent { channel, receiver, message }),
            ),
    {
        self.push_event(
            timedelta,
            EventType::MsgRcvEvent(MessageRcvEvent { channel, receiver, message }),
        );
    }

    /// Wake `component` up `timedelta` from now, without a payload.
    pub fn sched_self_event(&mut self, timedelta: SimTimeDelta, component: ComponentId)
        ensures
            final(self).inv(),
            final(self)@ == old(self)@.schedule(
                timedelta@,
                EventType::ProcessEvent(
                    ComponentEvent { sender: component, receiver: component, event: None },
                ),
            ),
    {
        self.sched_component_event(timedelta, component, component, None);
    }

    /// Wake `component` up `timedelta` from now and hand it `event`.
    pub fn sched_self_event_with_data(
        &mut self,
        timedelta: SimTimeDelta,
        component: ComponentId,
        event: E,
    )
        ensures
            final(self).inv(),
            final(self)@ == old(self)@.schedule(
                timedelta@,
                EventType::ProcessEvent(
                    ComponentEvent { sender: component, receiver: component, event: Some(event) },
                ),
            ),
    {
        self.sched_component_event(timedelta, component, component, Some(event));
    }

    /// Wake `receiver` up `timedelta` from now on behalf of `sender`.
    pub fn sched_component_event(
        &mut self,
        timedelta: SimTimeDelta,
        sender: ComponentId,
        receiver: ComponentId,
        event: Option<E>,
    )
        ensures
            final(self).inv(),
            final(self)@ == old(self)@.schedule(
                timedelta@,
                EventType::ProcessEvent(ComponentEvent { sender, receiver, event }),
            ),
    {
        self.push_event(
            timedelta,
            EventType::ProcessEvent(ComponentEvent { sender, receiver, event }),
        );
    }

    /// Set the failure flag: from now on `next_event` reports the end of
    /// the run.
    pub fn sim_error(&mut self)
        ensures
            final(self).inv(),
            final(self)@ == old(self)@.fail(),
    {
        proof {
            use_type_invariant(&*self);
        }
        self.sim_status = SimStatus::Failure;
        proof {
            assert(self@.pending =~= old(self)@.pending);
        }
    }

    fn push_event(&mut self, timedelta: SimTimeDelta, event: EventType<E, M>)
        requires
            !(event is EndSimulation),
        ensures
            final(self).inv(),
            final(self)@ == old(self)@.schedule(timedelta@, event),
    {
        proof {
            use_type_invariant(&*self);
        }
        let time = self.curr_time + timedelta;
        let n = self.events.len();
        let mut pos: usize = 0;
        while pos < n && time.is_before(&self.events[pos].time)
            invariant
                self.events@ == old(self).events@,
                n == self.events@.len(),
                pos <= n,
                forall|j: int| 0 <= j < pos ==> time@ < (#[trigger] self.events@[j]).time@,
            decreases n - pos,
        {
            pos += 1;
        }
        let ghost pre = old(self)@;
        let ghost k = (n - pos) as int;
        proof {
            assert(time@ == pre.target(timedelta@));
            assert forall|i: int| 0 <= i < k implies (#[trigger] pre.pending[i]).time <= time@ by {
                if pos < n {
                    assert(pre.pending[k - 1] == self.events@[pos as int].model());
                    if i < k - 1 {
                        assert(delivered_before(pre.pending[i], pre.pending[k - 1]));
                    }
                }
            }
            assert forall|i: int| k <= i < n implies (#[trigger] pre.pending[i]).time > time@ by {
                assert(pre.pending[i] == self.events@[n - 1 - i].model());
            }
            lemma_due_count_splits(pre.pending, time@, k);
            lemma_schedule_wf(pre, timedelta@, event);
        }
        let entry = ScheduledEvent {
            time,
            index: self.next_event.label,
            seq: Ghost(self.next_event.seq@),
            event,
        };
        let ghost stored = self.events@;
        let mut events: Vec<ScheduledEvent<E, M>> = Vec::new();
        std::mem::swap(&mut self.events, &mut events);
        proof {
            lemma_next_label(self.next_event.seq@, label_modulus());
        }
        self.next_event = Stamp {
            label: self.next_event.label.wrapping_add(1),
            seq: Ghost(self.next_event.seq@ + 1),
        };
        events.insert(pos, entry);
        proof {
            let post = pre.schedule(timedelta@, event);
            let after = Seq::new(events@.len(), |i: int| events@[events@.len() - 1 - i].model());
            assert(after.len() == post.pending.len());
            assert forall|i: int| 0 <= i < post.pending.len() implies after[i]
                == post.pending[i] by {
                let s = n - i;  // index into the new storage
                if i < k {
                    assert(events@[s] == stored[s - 1]);
                    assert(pre.pending[i] == stored[n - 1 - i].model());
                } else if i == k {
                } else {
                    assert(events@[s] == stored[s]);
                    assert(pre.pending[i - 1] == stored[n - i].model());
                }
            }
            assert(after =~= post.pending);
            assert forall|i: int| 0 <= i < events@.len() implies (#[trigger] events@[i]).index
                == events@[i].seq@ % label_modulus() by {
                if i < pos {
                    assert(events@[i] == stored[i]);
                } else if i > pos {
                    assert(events@[i] == stored[i - 1]);
                }
            }
        }
        std::mem::swap(&mut self.events, &mut events);
        proof {
            let post = pre.schedule(timedelta@, event);
            assert(self@.pending.len() == post.pending.len());
            assert forall|i: int| 0 <= i < post.pending.len() implies self@.pending[i]
                == post.pending[i] by {
                let s = n - i;  // index into the new storage
                if i < k {
                    assert(self.events@[s] == old(self).events@[s - 1]);
                } else if i == k {
                } else {
                    assert(self.events@[s] == old(self).events@[s]);
                }
            }
            assert(self@.pending =~= post.pending);
        }
    }
}

} // verus!
