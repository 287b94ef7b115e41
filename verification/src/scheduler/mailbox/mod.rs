//! Mailboxes: a bounded queue of messages, the flow that waits for one, and
//! the flows that wait for room.
//!
//! A flow that waits for a message is kept inside its own mailbox. Looking for
//! a message and beginning to wait are one operation, and so are delivering a
//! message and waking the flow that waits for it: no message can slip between
//! the two.

pub mod capacity;
pub mod laws;
pub mod metrics;
pub mod policy;
pub mod queue;

use vstd::prelude::*;

use self::metrics::{one_more, MailboxStats};
use self::policy::MailboxConfig;
use self::queue::{
    charge_sum, enqueued, fits, EnqueueEffect, MailboxFullReason, MailboxQueue,
};
use super::process::{opt_flow_view, Flow, FlowId, FlowView};
use crate::bytecode::value::Value;

verus! {

/// Which message ends a wait.
#[derive(Clone, Copy, Debug, PartialEq, Eq, Structural)]
pub enum WaitFilter {
    /// Any message.
    Any,
    /// A message with this tag.
    Tag(u16),
    /// The reply to one request: with this correlation token and, if given,
    /// from this flow.
    Correlation { expect_request_id: u64, expect_sender: Option<u64> },
}

impl WaitFilter {
    pub open spec fn admits(self, v: Value) -> bool {
        match self {
            WaitFilter::Any => true,
            WaitFilter::Tag(tag) => v matches Value::Message(m) && m.tag == tag,
            WaitFilter::Correlation { expect_request_id, expect_sender } => v matches
                Value::Message(m) && m.request_id == expect_request_id && (expect_sender matches
                Some(s) ==> m.sender == s),
        }
    }

    pub fn accepts(&self, v: &Value) -> (r: bool)
        ensures
            r == self.admits(*v),
    {
        match self {
            WaitFilter::Any => true,
            WaitFilter::Tag(tag) => match v.as_message() {
                Some(m) => m.tag == *tag,
                None => false,
            },
            WaitFilter::Correlation { expect_request_id, expect_sender } => match v.as_message() {
                Some(m) => m.request_id == *expect_request_id && match expect_sender {
                    Some(s) => m.sender == *s,
                    None => true,
                },
                None => false,
            },
        }
    }
}

/// Position of the first message that the filter admits, from `i` on; the
/// length if there is none.
pub open spec fn first_match(q: Seq<Value>, filter: WaitFilter, i: nat) -> nat
    decreases q.len() - i,
{
    if i >= q.len() {
        q.len()
    } else if filter.admits(q[i as int]) {
        i
    } else {
        first_match(q, filter, i + 1)
    }
}

/// What became of a message.
#[derive(Debug)]
pub enum Delivery {
    Queued,
    /// Queued, at the cost of older messages.
    QueuedDropOldest,
    DroppedNewest,
    /// The flow that waited for it; the message is not in the queue.
    Handoff(Box<Flow>),
}

/// The mailbox is full, and refuses messages that do not fit.
#[derive(Clone, Copy, Debug, PartialEq, Eq, Structural)]
pub struct MailboxFull {
    pub cause: MailboxFullReason,
}

impl MailboxFull {
    pub fn reason(&self) -> (r: MailboxFullReason)
        ensures
            r == self.cause,
    {
        self.cause
    }

    pub fn to_text(&self) -> (s: &'static str)
        ensures
            s == "mailbox full",
    {
        "mailbox full"
    }
}

/// Delivery as a mathematical value.
pub enum DeliveryView {
    Queued,
    QueuedDropOldest,
    DroppedNewest,
    Handoff(FlowView),
    Full(MailboxFullReason),
}

pub open spec fn delivery_view(r: Result<Delivery, MailboxFull>) -> DeliveryView {
    match r {
        Ok(Delivery::Queued) => DeliveryView::Queued,
        Ok(Delivery::QueuedDropOldest) => DeliveryView::QueuedDropOldest,
        Ok(Delivery::DroppedNewest) => DeliveryView::DroppedNewest,
        Ok(Delivery::Handoff(f)) => DeliveryView::Handoff((*f)@),
        Err(full) => DeliveryView::Full(full.cause),
    }
}

/// What became of a sender that wants to wait for room.
#[derive(Debug)]
pub enum ParkSender {
    Parked,
    /// The mailbox is closed; the sender comes back.
    Closed(Box<Flow>),
}

/// A mailbox as a mathematical value.
#[verifier::ext_equal]
pub struct MailboxView {
    pub config: MailboxConfig,
    pub limit: nat,
    pub budget: nat,
    pub queue: Seq<Value>,
    /// The owner, while it waits here for a message.
    pub parked: Option<FlowView>,
    /// What the owner waits for.
    pub filter: WaitFilter,
    /// Number of the latest wait.
    pub epoch: u64,
    /// Flows that wait for room, each with its message, in order.
    pub waiting: Seq<(FlowView, Value)>,
    pub closed: bool,
    pub stats: MailboxStats,
}

impl MailboxView {
    /// A mailbox without messages.
    pub open spec fn fresh(config: MailboxConfig) -> MailboxView {
        MailboxView {
            config,
            limit: config.spec_capacity().hops() as nat,
            budget: config.spec_bytes().budget() as nat,
            queue: Seq::empty(),
            parked: None,
            filter: WaitFilter::Any,
            epoch: 0,
            waiting: Seq::empty(),
            closed: false,
            stats: MailboxStats::zero(),
        }
    }

    /// The owner waits for `v`.
    pub open spec fn wants(self, v: Value) -> bool {
        self.parked is Some && self.filter.admits(v)
    }

    pub open spec fn handed_off(self) -> MailboxView {
        MailboxView {
            parked: None,
            filter: WaitFilter::Any,
            stats: MailboxStats {
                enqueued: one_more(self.stats.enqueued),
                dequeued: one_more(self.stats.dequeued),
                ..self.stats
            },
            ..self
        }
    }

    /// The mailbox after its queue was offered `v`.
    pub open spec fn offered(self, v: Value) -> (MailboxView, DeliveryView) {
        let (queue, r) = enqueued(
            self.queue,
            self.limit,
            self.budget,
            v,
            self.config.spec_overflow(),
        );
        let s = self.stats;
        match r {
            Ok(EnqueueEffect::Enqueued) => (
                MailboxView {
                    queue,
                    stats: MailboxStats { enqueued: one_more(s.enqueued), ..s },
                    ..self
                },
                DeliveryView::Queued,
            ),
            Ok(EnqueueEffect::DroppedOldest(n)) => (
                MailboxView {
                    queue,
                    stats: MailboxStats {
                        enqueued: one_more(s.enqueued),
                        dropped_oldest: s.dropped_oldest.saturating_add(n),
                        ..s
                    },
                    ..self
                },
                DeliveryView::QueuedDropOldest,
            ),
            Ok(EnqueueEffect::DroppedNewest) => (
                MailboxView {
                    queue,
                    stats: MailboxStats { dropped_newest: one_more(s.dropped_newest), ..s },
                    ..self
                },
                DeliveryView::DroppedNewest,
            ),
            Err(cause) => (
                MailboxView {
                    queue,
                    stats: MailboxStats {
                        rejected: one_more(s.rejected),
                        rejected_byte_limit: if cause is Bytes {
                            one_more(s.rejected_byte_limit)
                        } else {
                            s.rejected_byte_limit
                        },
                        ..s
                    },
                    ..self
                },
                DeliveryView::Full(cause),
            ),
        }
    }

    /// A message arrives: the owner takes it if it waits for it, else the
    /// queue is offered it.
    pub open spec fn pushed(self, v: Value) -> (MailboxView, DeliveryView) {
        if self.wants(v) {
            (self.handed_off(), DeliveryView::Handoff(self.parked.unwrap()))
        } else {
            self.offered(v)
        }
    }

    /// A notice of the runtime arrives. It is never refused.
    pub open spec fn pushed_system(self, v: Value) -> (MailboxView, DeliveryView) {
        if self.wants(v) {
            (self.handed_off(), DeliveryView::Handoff(self.parked.unwrap()))
        } else {
            (
                MailboxView {
                    queue: self.queue.push(v),
                    stats: MailboxStats { enqueued: one_more(self.stats.enqueued), ..self.stats },
                    ..self
                },
                DeliveryView::Queued,
            )
        }
    }

    /// The first message that the filter admits, if any; the others keep
    /// their order.
    pub open spec fn popped(self, filter: WaitFilter) -> (MailboxView, Option<Value>) {
        let i = first_match(self.queue, filter, 0);
        if i < self.queue.len() {
            (
                MailboxView {
                    queue: self.queue.remove(i as int),
                    stats: MailboxStats { dequeued: one_more(self.stats.dequeued), ..self.stats },
                    ..self
                },
                Some(self.queue[i as int]),
            )
        } else {
            (self, None)
        }
    }

    /// The owner begins to wait.
    pub open spec fn parked_with(self, flow: FlowView, filter: WaitFilter) -> MailboxView {
        MailboxView {
            parked: Some(flow),
            filter,
            epoch: self.epoch.wrapping_add(1),
            ..self
        }
    }

    /// The owner no longer waits.
    pub open spec fn unparked(self) -> MailboxView {
        MailboxView { parked: None, filter: WaitFilter::Any, ..self }
    }

    /// Position of a waiting sender, from `i` on; their number if not there.
    pub open spec fn sender_index(self, id: FlowId, i: nat) -> nat
        decreases self.waiting.len() - i,
    {
        if i >= self.waiting.len() {
            self.waiting.len()
        } else if self.waiting[i as int].0.id == id {
            i
        } else {
            self.sender_index(id, i + 1)
        }
    }

    /// The first waiting sender gets its message in, if there is room for it.
    pub open spec fn admitted(self) -> (MailboxView, Option<FlowView>) {
        if self.waiting.len() > 0 && fits(self.queue, self.limit, self.budget, self.waiting[0].1) {
            (
                MailboxView {
                    queue: self.queue.push(self.waiting[0].1),
                    waiting: self.waiting.skip(1),
                    stats: MailboxStats { enqueued: one_more(self.stats.enqueued), ..self.stats },
                    ..self
                },
                Some(self.waiting[0].0),
            )
        } else {
            (self, None)
        }
    }

    /// The counters with the occupancy filled in.
    pub open spec fn statistics(self) -> MailboxStats {
        MailboxStats {
            queued_messages: self.queue.len() as usize,
            queued_bytes: if charge_sum(self.queue) <= usize::MAX {
                charge_sum(self.queue) as usize
            } else {
                usize::MAX
            },
            ..self.stats
        }
    }
}

/// A flow's inbox.
#[derive(Debug)]
pub struct Mailbox {
    config: MailboxConfig,
    queue: MailboxQueue,
    parked: Option<Box<Flow>>,
    parked_filter: WaitFilter,
    epoch: u64,
    waiting: Vec<(Box<Flow>, Value)>,
    closed: bool,
    stats: MailboxStats,
}

pub open spec fn waiting_view(w: Seq<(Box<Flow>, Value)>) -> Seq<(FlowView, Value)> {
    w.map_values(|p: (Box<Flow>, Value)| ((*p.0)@, p.1))
}

impl View for Mailbox {
    type V = MailboxView;

    closed spec fn view(&self) -> MailboxView {
        MailboxView {
            config: self.config,
            limit: self.queue.spec_limit(),
            budget: self.queue.spec_budget(),
            queue: self.queue@,
            parked: opt_flow_view(self.parked),
            filter: self.parked_filter,
            epoch: self.epoch,
            waiting: waiting_view(self.waiting@),
            closed: self.closed,
            stats: self.stats,
        }
    }
}

fn bump(n: &mut u64)
    ensures
        *final(n) == one_more(*old(n)),
{
    *n = n.saturating_add(1);
}

impl Mailbox {
    pub fn new() -> (m: Mailbox)
        ensures
            exists|c: MailboxConfig| m@ == #[trigger] MailboxView::fresh(c),
            m@.limit == 256,
            m@.budget == 0x40_0000,
            m@.config.spec_overflow() is Reject,
    {
        Mailbox::with_config(MailboxConfig::default())
    }

    pub fn with_config(config: MailboxConfig) -> (m: Mailbox)
        ensures
            m@ == MailboxView::fresh(config),
    {
        let m = Mailbox {
            config,
            queue: MailboxQueue::bounded(config.capacity().get(), config.bytes().get()),
            parked: None,
            parked_filter: WaitFilter::Any,
            epoch: 0,
            waiting: Vec::new(),
            closed: false,
            stats: MailboxStats::default(),
        };
        assert(m@ =~= MailboxView::fresh(config));
        m
    }

    pub fn config(&self) -> (c: MailboxConfig)
        ensures
            c == self@.config,
    {
        self.config
    }

    pub fn stats(&self) -> (s: MailboxStats)
        ensures
            s == self@.statistics(),
    {
        let bytes: u128 = self.queue.bytes();
        let mut s = self.stats;
        s.queued_messages = self.queue.len();
        s.queued_bytes = if bytes <= usize::MAX as u128 {
            bytes as usize
        } else {
            usize::MAX
        };
        s
    }

    /// Whether the owner waits for `v`.
    fn wanted(&self, v: &Value) -> (r: bool)
        ensures
            r == self@.wants(*v),
    {
        match &self.parked {
            Some(_) => self.parked_filter.accepts(v),
            None => false,
        }
    }

    fn hand_off(&mut self) -> (f: Option<Box<Flow>>)
        ensures
            opt_flow_view(f) == old(self)@.parked,
            final(self)@ == old(self)@.handed_off(),
    {
        let f = self.parked.take();
        self.parked_filter = WaitFilter::Any;
        bump(&mut self.stats.dequeued);
        bump(&mut self.stats.enqueued);
        f
    }

    fn offer(&mut self, v: Value) -> (r: Result<Delivery, MailboxFull>)
        ensures
            (final(self)@, delivery_view(r)) == old(self)@.offered(v),
    {
        let policy = self.config.overflow();
        match self.queue.enqueue(v, policy) {
            Ok(EnqueueEffect::Enqueued) => {
                bump(&mut self.stats.enqueued);
                Ok(Delivery::Queued)
            },
            Ok(EnqueueEffect::DroppedOldest(n)) => {
                self.stats.dropped_oldest = self.stats.dropped_oldest.saturating_add(n);
                bump(&mut self.stats.enqueued);
                Ok(Delivery::QueuedDropOldest)
            },
            Ok(EnqueueEffect::DroppedNewest) => {
                bump(&mut self.stats.dropped_newest);
                Ok(Delivery::DroppedNewest)
            },
            Err(cause) => {
                bump(&mut self.stats.rejected);
                match cause {
                    MailboxFullReason::Bytes => bump(&mut self.stats.rejected_byte_limit),
                    MailboxFullReason::Messages => {},
                }
                Err(MailboxFull { cause })
            },
        }
    }

    /// Deliver a message: to the owner if it waits for this one, else to the
    /// queue under its policy.
    pub fn push(&mut self, v: Value) -> (r: Result<Delivery, MailboxFull>)
        ensures
            (final(self)@, delivery_view(r)) == old(self)@.pushed(v),
    {
        if self.wanted(&v) {
            match self.hand_off() {
                Some(f) => return Ok(Delivery::Handoff(f)),
                None => return Ok(Delivery::Queued),
            }
        }
        self.offer(v)
    }

    /// Deliver a notice of the runtime, which is never refused.
    pub fn push_system(&mut self, v: Value) -> (r: Delivery)
        ensures
            (final(self)@, delivery_view(Ok(r))) == old(self)@.pushed_system(v),
    {
        if self.wanted(&v) {
            match self.hand_off() {
                Some(f) => return Delivery::Handoff(f),
                None => return Delivery::Queued,
            }
        }
        self.queue.push(v);
        bump(&mut self.stats.enqueued);
        Delivery::Queued
    }

    /// The oldest message.
    pub fn try_pop(&mut self) -> (r: Option<Value>)
        ensures
            (final(self)@, r) == old(self)@.popped(WaitFilter::Any),
    {
        self.try_pop_filter(WaitFilter::Any)
    }

    /// The oldest message with this tag.
    pub fn try_pop_match(&mut self, tag: u16) -> (r: Option<Value>)
        ensures
            (final(self)@, r) == old(self)@.popped(WaitFilter::Tag(tag)),
    {
        self.try_pop_filter(WaitFilter::Tag(tag))
    }

    /// The oldest message that the filter admits. Messages before it stay.
    pub fn try_pop_filter(&mut self, filter: WaitFilter) -> (r: Option<Value>)
        ensures
            (final(self)@, r) == old(self)@.popped(filter),
    {
        let mut i: usize = 0;
        while i < self.queue.len()
            invariant
                self@ == old(self)@,
                self@.queue == self.queue@,
                i <= self.queue@.len(),
                first_match(self@.queue, filter, 0) == first_match(self@.queue, filter, i as nat),
            decreases self.queue@.len() - i,
        {
            if filter.accepts(self.queue.get(i)) {
                let v = self.queue.take(i);
                bump(&mut self.stats.dequeued);
                return Some(v);
            }
            i = i + 1;
        }
        None
    }

    /// Begin to wait for any message; see [`Self::park_filter`].
    pub fn park(&mut self, flow: Box<Flow>) -> (r: Result<u64, Box<Flow>>)
        ensures
            parked(old(self)@, final(self)@, r, (*flow)@, WaitFilter::Any),
    {
        self.park_filter(flow, WaitFilter::Any)
    }

    /// Begin to wait for a message with this tag; see [`Self::park_filter`].
    pub fn park_match(&mut self, flow: Box<Flow>, tag: u16) -> (r: Result<u64, Box<Flow>>)
        ensures
            parked(old(self)@, final(self)@, r, (*flow)@, WaitFilter::Tag(tag)),
    {
        self.park_filter(flow, WaitFilter::Tag(tag))
    }

    /// Begin to wait, unless a message that the filter admits is there
    /// already: then the flow comes back with that message pending. The result
    /// is the number of the wait.
    pub fn park_filter(&mut self, flow: Box<Flow>, filter: WaitFilter) -> (r: Result<
        u64,
        Box<Flow>,
    >)
        ensures
            parked(old(self)@, final(self)@, r, (*flow)@, filter),
    {
        match self.try_pop_filter(filter) {
            Some(v) => {
                let mut flow = flow;
                flow.pending_message = Some(v);
                Err(flow)
            },
            None => {
                self.parked_filter = filter;
                self.parked = Some(flow);
                self.epoch = self.epoch.wrapping_add(1);
                Ok(self.epoch)
            },
        }
    }

    /// Take the waiting owner out.
    pub fn take_parked(&mut self) -> (r: Option<Box<Flow>>)
        ensures
            opt_flow_view(r) == old(self)@.parked,
            final(self)@ == old(self)@.unparked(),
    {
        self.parked_filter = WaitFilter::Any;
        self.parked.take()
    }

    /// Take the owner out if it is still in the wait of this number.
    pub fn take_parked_at(&mut self, epoch: u64) -> (r: Option<Box<Flow>>)
        ensures
            old(self)@.epoch == epoch ==> opt_flow_view(r) == old(self)@.parked && final(self)@
                == old(self)@.unparked(),
            old(self)@.epoch != epoch ==> r is None && final(self)@ == old(self)@,
    {
        if self.epoch == epoch {
            self.take_parked()
        } else {
            None
        }
    }

    /// Close the mailbox, giving back the senders that wait for room.
    pub fn close(&mut self) -> (r: Vec<(Box<Flow>, Value)>)
        ensures
            waiting_view(r@) == old(self)@.waiting,
            final(self)@ == (MailboxView { closed: true, waiting: Seq::empty(), ..old(self)@ }),
    {
        self.closed = true;
        let mut out: Vec<(Box<Flow>, Value)> = Vec::new();
        std::mem::swap(&mut out, &mut self.waiting);
        assert(waiting_view(self.waiting@) =~= Seq::empty());
        out
    }

    /// Have a sender wait for room.
    pub fn park_sender(&mut self, flow: Box<Flow>, v: Value) -> (r: ParkSender)
        ensures
            old(self)@.closed ==> (r matches ParkSender::Closed(f) && (*f)@ == (*flow)@)
                && final(self)@ == old(self)@,
            !old(self)@.closed ==> r is Parked && final(self)@ == (MailboxView {
                waiting: old(self)@.waiting.push(((*flow)@, v)),
                ..old(self)@
            }),
    {
        if self.closed {
            return ParkSender::Closed(flow);
        }
        let ghost before = self.waiting@;
        self.waiting.push((flow, v));
        assert(waiting_view(self.waiting@) =~= waiting_view(before).push(((*flow)@, v)));
        ParkSender::Parked
    }

    /// Let the first waiting sender's message in, if there is room for it.
    pub fn admit_waiting_sender(&mut self) -> (r: Option<Box<Flow>>)
        ensures
            (final(self)@, opt_flow_view(r)) == old(self)@.admitted(),
    {
        if self.waiting.len() == 0 {
            return None;
        }
        assert(self@.waiting[0] == ((*self.waiting@[0].0)@, self.waiting@[0].1));
        if !self.queue.fits(&self.waiting[0].1) {
            return None;
        }
        let (flow, v) = self.waiting.remove(0);
        assert(waiting_view(self.waiting@) =~= old(self)@.waiting.skip(1));
        self.queue.push(v);
        bump(&mut self.stats.enqueued);
        Some(flow)
    }

    /// Take one waiting sender out.
    pub fn take_waiting_sender(&mut self, id: FlowId) -> (r: Option<Box<Flow>>)
        ensures
            ({
                let i = old(self)@.sender_index(id, 0);
                if i < old(self)@.waiting.len() {
                    &&& opt_flow_view(r) == Some(old(self)@.waiting[i as int].0)
                    &&& final(self)@ == (MailboxView {
                        waiting: old(self)@.waiting.remove(i as int),
                        ..old(self)@
                    })
                } else {
                    r is None && final(self)@ == old(self)@
                }
            }),
    {
        let mut i: usize = 0;
        while i < self.waiting.len()
            invariant
                self@ == old(self)@,
                self@.waiting == waiting_view(self.waiting@),
                i <= self.waiting@.len(),
                self@.sender_index(id, 0) == self@.sender_index(id, i as nat),
            decreases self.waiting@.len() - i,
        {
            assert(self@.waiting[i as int].0 == (*self.waiting@[i as int].0)@);
            if self.waiting[i].0.id.0 == id.0 {
                let (flow, _) = self.waiting.remove(i);
                assert(waiting_view(self.waiting@) =~= old(self)@.waiting.remove(i as int));
                return Some(flow);
            }
            i = i + 1;
        }
        None
    }
}

impl Default for Mailbox {
    fn default() -> (m: Mailbox)
        ensures
            exists|c: MailboxConfig| m@ == #[trigger] MailboxView::fresh(c),
            m@.limit == 256,
            m@.budget == 0x40_0000,
            m@.config.spec_overflow() is Reject,
    {
        Mailbox::new()
    }
}

/// The flow waits in the mailbox, or comes back with a message.
pub open spec fn parked(
    pre: MailboxView,
    post: MailboxView,
    r: Result<u64, Box<Flow>>,
    flow: FlowView,
    filter: WaitFilter,
) -> bool {
    match pre.popped(filter) {
        (after, Some(v)) => post == after && (r matches Err(f) && (*f)@ == FlowView {
            pending_message: Some(v),
            ..flow
        }),
        (_, None) => post == pre.parked_with(flow, filter) && r == Ok::<u64, Box<Flow>>(
            pre.epoch.wrapping_add(1),
        ),
    }
}

} // verus!
