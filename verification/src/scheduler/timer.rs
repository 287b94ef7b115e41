//! Deadlines of sleeping flows and of waits with a limit.
//!
//! Times are milliseconds on a clock of the host that never runs backwards.

use std::collections::VecDeque;

use vstd::prelude::*;

use super::process::{Flow, FlowId, FlowView};

verus! {

/// What is due at a deadline.
#[derive(Debug)]
pub enum TimerPayload {
    /// The flow runs on.
    WakeSleeper(Box<Flow>),
    /// The flow's wait for a message is over, if it is still the same wait.
    WakeReceiver { pid: FlowId, dest_reg: u8, epoch: u64 },
}

#[derive(Debug)]
pub struct TimerEntry {
    pub deadline: u64,
    pub payload: TimerPayload,
}

/// A payload as a mathematical value.
pub enum PayloadView {
    WakeSleeper(FlowView),
    WakeReceiver { pid: FlowId, dest_reg: u8, epoch: u64 },
}

/// An entry as a mathematical value.
pub struct TimerEntryView {
    pub deadline: u64,
    pub payload: PayloadView,
}

impl View for TimerEntry {
    type V = TimerEntryView;

    open spec fn view(&self) -> TimerEntryView {
        TimerEntryView {
            deadline: self.deadline,
            payload: match self.payload {
                TimerPayload::WakeSleeper(f) => PayloadView::WakeSleeper((*f)@),
                TimerPayload::WakeReceiver { pid, dest_reg, epoch } => PayloadView::WakeReceiver {
                    pid,
                    dest_reg,
                    epoch,
                },
            },
        }
    }
}

/// The deadlines as a mathematical value.
#[verifier::ext_equal]
pub struct TimerView {
    /// Earliest first; among equal deadlines, in the order of scheduling.
    pub entries: Seq<TimerEntryView>,
    pub shutdown: bool,
}

/// Where an entry with this deadline goes among the first `n`: behind all that
/// are not later.
pub open spec fn slot(entries: Seq<TimerEntryView>, deadline: u64, n: nat) -> nat
    decreases n,
{
    if n > 0 && entries[n - 1].deadline > deadline {
        slot(entries, deadline, (n - 1) as nat)
    } else {
        n
    }
}

/// The moment `delay` after `now`, or the end of time.
pub open spec fn due_at(now: u64, delay: u64) -> u64 {
    if now + delay <= u64::MAX {
        (now + delay) as u64
    } else {
        u64::MAX
    }
}

impl TimerView {
    pub open spec fn scheduled(self, e: TimerEntryView) -> TimerView {
        TimerView {
            entries: self.entries.insert(
                slot(self.entries, e.deadline, self.entries.len()) as int,
                e,
            ),
            ..self
        }
    }

    pub open spec fn slept(self, now: u64, delay: u64, flow: FlowView) -> TimerView {
        self.scheduled(
            TimerEntryView {
                deadline: due_at(now, delay),
                payload: PayloadView::WakeSleeper(flow),
            },
        )
    }

    pub open spec fn limited(
        self,
        now: u64,
        delay: u64,
        pid: FlowId,
        dest_reg: u8,
        epoch: u64,
    ) -> TimerView {
        self.scheduled(
            TimerEntryView {
                deadline: due_at(now, delay),
                payload: PayloadView::WakeReceiver { pid, dest_reg, epoch },
            },
        )
    }

    pub open spec fn in_order(self) -> bool {
        forall|i: int, j: int|
            0 <= i <= j < self.entries.len() ==> (#[trigger] self.entries[i]).deadline <= (
            #[trigger] self.entries[j]).deadline
    }
}

/// What the timer thread does next.
#[derive(Debug)]
pub enum TimerStep {
    Stop,
    /// Nothing is scheduled.
    Idle,
    /// Nothing is due for this many milliseconds.
    Wait(u64),
    Fire(TimerEntry),
}

/// All deadlines of a runtime.
#[derive(Debug)]
pub struct TimerWheel {
    entries: VecDeque<TimerEntry>,
    shutdown: bool,
}

pub open spec fn entries_view(entries: Seq<TimerEntry>) -> Seq<TimerEntryView> {
    entries.map_values(|e: TimerEntry| e@)
}

impl View for TimerWheel {
    type V = TimerView;

    closed spec fn view(&self) -> TimerView {
        TimerView { entries: entries_view(self.entries@), shutdown: self.shutdown }
    }
}

impl TimerWheel {
    pub fn new() -> (t: TimerWheel)
        ensures
            t@ == (TimerView { entries: Seq::empty(), shutdown: false }),
    {
        let t = TimerWheel { entries: VecDeque::new(), shutdown: false };
        assert(t@.entries =~= Seq::empty());
        t
    }

    fn push(&mut self, e: TimerEntry)
        ensures
            final(self)@ == old(self)@.scheduled(e@),
    {
        let mut n: usize = self.entries.len();
        let ghost all = self@.entries;
        while n > 0 && self.entries[n - 1].deadline > e.deadline
            invariant
                n <= self.entries@.len(),
                all == entries_view(self.entries@),
                self@ == old(self)@,
                all == self@.entries,
                slot(all, e.deadline, all.len()) == slot(all, e.deadline, n as nat),
            decreases n,
        {
            assert(all[n - 1] == self.entries@[n - 1]@);
            n = n - 1;
        }
        assert(n > 0 ==> all[n - 1] == self.entries@[n - 1]@);
        let ghost before = self.entries@;
        self.entries.insert(n, e);
        assert(self@.entries =~= all.insert(n as int, e@));
    }

    /// Wake the flow `delay` from now.
    pub fn schedule_sleep(&mut self, now: u64, delay: u64, flow: Box<Flow>)
        ensures
            final(self)@ == old(self)@.slept(now, delay, (*flow)@),
    {
        self.push(
            TimerEntry {
                deadline: now.saturating_add(delay),
                payload: TimerPayload::WakeSleeper(flow),
            },
        );
    }

    /// End the wait with number `epoch` of a flow `delay` from now.
    pub fn schedule_receive_timeout(
        &mut self,
        now: u64,
        delay: u64,
        pid: FlowId,
        dest_reg: u8,
        epoch: u64,
    )
        ensures
            final(self)@ == old(self)@.limited(now, delay, pid, dest_reg, epoch),
    {
        self.push(
            TimerEntry {
                deadline: now.saturating_add(delay),
                payload: TimerPayload::WakeReceiver { pid, dest_reg, epoch },
            },
        );
    }

    pub fn shutdown(&mut self)
        ensures
            final(self)@ == (TimerView { shutdown: true, ..old(self)@ }),
    {
        self.shutdown = true;
    }

    /// What to do at `now`: stop, wait, or fire the earliest entry, which then
    /// leaves the wheel.
    pub fn poll(&mut self, now: u64) -> (step: TimerStep)
        ensures
            match step {
                TimerStep::Stop => old(self)@.shutdown && final(self)@ == old(self)@,
                TimerStep::Idle => !old(self)@.shutdown && old(self)@.entries.len() == 0
                    && final(self)@ == old(self)@,
                TimerStep::Wait(ms) => !old(self)@.shutdown && old(self)@.entries.len() > 0
                    && old(self)@.entries[0].deadline == now + ms && ms > 0 && final(self)@ == old(
                    self,
                )@,
                TimerStep::Fire(e) => !old(self)@.shutdown && old(self)@.entries.len() > 0
                    && old(self)@.entries[0].deadline <= now && e@ == old(self)@.entries[0]
                    && final(self)@ == (TimerView {
                    entries: old(self)@.entries.skip(1),
                    ..old(self)@
                }),
            },
    {
        if self.shutdown {
            return TimerStep::Stop;
        }
        if self.entries.len() == 0 {
            return TimerStep::Idle;
        }
        assert(self@.entries[0] == self.entries@[0]@);
        let deadline: u64 = self.entries[0].deadline;
        if deadline <= now {
            match self.entries.pop_front() {
                Some(e) => {
                    assert(self@.entries =~= old(self)@.entries.skip(1));
                    TimerStep::Fire(e)
                },
                None => TimerStep::Idle,
            }
        } else {
            TimerStep::Wait(deadline - now)
        }
    }
}

/// Scheduling keeps the entries in order, so that the first one is always the
/// earliest.
pub proof fn scheduling_keeps_order(t: TimerView, e: TimerEntryView)
    requires
        t.in_order(),
    ensures
        t.scheduled(e).in_order(),
{
    let n = slot(t.entries, e.deadline, t.entries.len()) as int;
    slot_bounds(t.entries, e.deadline, t.entries.len());
    let s = t.scheduled(e).entries;
    assert forall|i: int, j: int| 0 <= i <= j < s.len() implies (#[trigger] s[i]).deadline <= (
    #[trigger] s[j]).deadline by {
        if n > 0 && i < n {
            assert(t.entries[i].deadline <= t.entries[n - 1].deadline);
        }
        if i < n && j > n {
            assert(t.entries[i].deadline <= t.entries[j - 1].deadline);
        }
        if i > n && j > n {
            assert(t.entries[i - 1].deadline <= t.entries[j - 1].deadline);
        }
    }
}

/// A new entry goes behind all that are due no later, and before the others.
pub proof fn slot_bounds(entries: Seq<TimerEntryView>, deadline: u64, n: nat)
    requires
        n <= entries.len(),
    ensures
        slot(entries, deadline, n) <= n,
        slot(entries, deadline, n) > 0 ==> entries[slot(entries, deadline, n) - 1].deadline
            <= deadline,
        forall|k: int|
            slot(entries, deadline, n) <= k < n ==> (#[trigger] entries[k]).deadline > deadline,
    decreases n,
{
    if n > 0 && entries[n - 1].deadline > deadline {
        slot_bounds(entries, deadline, (n - 1) as nat);
    }
}

/// An entry that is scheduled at `now` with a delay is due `delay` after `now`,
/// where the clock reaches so far, and at the end of time otherwise. It comes
/// behind all entries that are due no later, and before the others; those stay
/// in their order.
pub proof fn entries_are_due_after_their_delay(
    t: TimerView,
    now: u64,
    delay: u64,
    flow: FlowView,
    pid: FlowId,
    dest_reg: u8,
    epoch: u64,
)
    ensures
        added(t, t.slept(now, delay, flow), now + delay, PayloadView::WakeSleeper(flow)),
        added(
            t,
            t.limited(now, delay, pid, dest_reg, epoch),
            now + delay,
            PayloadView::WakeReceiver { pid, dest_reg, epoch },
        ),
{
    let n = slot(t.entries, due_at(now, delay), t.entries.len()) as int;
    slot_bounds(t.entries, due_at(now, delay), t.entries.len());
    assert(added_at(t, t.slept(now, delay, flow), n, now + delay, PayloadView::WakeSleeper(flow)));
    assert(added_at(
        t,
        t.limited(now, delay, pid, dest_reg, epoch),
        n,
        now + delay,
        PayloadView::WakeReceiver { pid, dest_reg, epoch },
    ));
}

/// `u` is `t` with an entry for `payload` at position `n`, due at `due` or at the
/// end of time.
pub open spec fn added_at(t: TimerView, u: TimerView, n: int, due: int, payload: PayloadView) -> bool {
    &&& 0 <= n <= t.entries.len()
    &&& u.entries.len() == t.entries.len() + 1
    &&& u.shutdown == t.shutdown
    &&& u.entries[n].payload == payload
    &&& due <= u64::MAX ==> u.entries[n].deadline == due
    &&& due > u64::MAX ==> u.entries[n].deadline == u64::MAX
    &&& forall|k: int| 0 <= k < n ==> #[trigger] u.entries[k] == t.entries[k]
    &&& forall|k: int| n < k < u.entries.len() ==> #[trigger] u.entries[k] == t.entries[k - 1]
    &&& n > 0 ==> t.entries[n - 1].deadline <= due
    &&& n < t.entries.len() ==> t.entries[n].deadline > due
}

/// `u` is `t` with such an entry.
pub open spec fn added(t: TimerView, u: TimerView, due: int, payload: PayloadView) -> bool {
    exists|n: int| #[trigger] added_at(t, u, n, due, payload)
}

/// A sleeper is never woken early: at a time before its delay is over, what is
/// due first is another entry, and if all others are due later still, nothing is
/// due.
pub proof fn no_sleeper_wakes_early(t: TimerView, now: u64, delay: u64, flow: FlowView, at: u64)
    requires
        t.in_order(),
        at < now + delay <= u64::MAX,
        forall|k: int| 0 <= k < t.entries.len() ==> (#[trigger] t.entries[k]).deadline > at,
    ensures
        t.slept(now, delay, flow).entries.len() > 0,
        t.slept(now, delay, flow).entries[0].deadline > at,
{
    entries_are_due_after_their_delay(t, now, delay, flow, FlowId(0), 0, 0);
    let u = t.slept(now, delay, flow);
    let n = choose|n: int| #[trigger]
        added_at(t, u, n, now + delay, PayloadView::WakeSleeper(flow));
    if n > 0 {
        assert(u.entries[0] == t.entries[0]);
    }
}

} // verus!
