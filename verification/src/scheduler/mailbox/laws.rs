//! What holds of every mailbox.

use vstd::prelude::*;

use super::super::process::FlowView;
use super::metrics::one_more;
use super::policy::{MailboxConfig, OverflowPolicy};
use super::queue::{
    charge_sum, enqueue_respects_bounds, enqueued, fits, has_room, overflow_is_as_configured,
    slides_by, EnqueueEffect, MailboxFullReason,
};
use super::{first_match, DeliveryView, MailboxView, WaitFilter};
use crate::bytecode::value::{Message, Value};

verus! {

proof fn first_match_bounds(q: Seq<Value>, filter: WaitFilter, i: nat)
    requires
        i <= q.len(),
    ensures
        i <= first_match(q, filter, i) <= q.len(),
        first_match(q, filter, i) < q.len() ==> filter.admits(
            q[first_match(q, filter, i) as int],
        ),
        forall|j: int| i <= j < first_match(q, filter, i) ==> !filter.admits(#[trigger] q[j]),
    decreases q.len() - i,
{
    if i < q.len() && !filter.admits(q[i as int]) {
        first_match_bounds(q, filter, i + 1);
    }
}

/// A receive takes the oldest message that it admits. Older messages that it
/// does not admit are skipped, never dropped, and all others keep their order.
/// It finds nothing only if nothing is admitted.
pub proof fn receive_takes_the_oldest_admitted(m: MailboxView, filter: WaitFilter)
    ensures
        match m.popped(filter) {
            (after, Some(v)) => exists|i: int|
                {
                    &&& 0 <= i < m.queue.len()
                    &&& #[trigger] m.queue[i] == v
                    &&& filter.admits(v)
                    &&& forall|j: int| 0 <= j < i ==> !filter.admits(#[trigger] m.queue[j])
                    &&& after.queue == m.queue.remove(i)
                },
            (after, None) => after == m && forall|j: int|
                0 <= j < m.queue.len() ==> !filter.admits(#[trigger] m.queue[j]),
        },
{
    first_match_bounds(m.queue, filter, 0);
    let i = first_match(m.queue, filter, 0) as int;
    if i < m.queue.len() {
        assert(m.queue[i] == m.popped(filter).1.unwrap());
    }
}

/// No wakeup is lost. Whether a message that the owner waits for arrives just
/// before or just after the owner begins to wait, the owner gets it.
pub proof fn no_wakeup_is_lost(m: MailboxView, flow: FlowView, filter: WaitFilter, v: Value)
    requires
        m.parked is None,
        m.popped(filter).1 is None,
        filter.admits(v),
        fits(m.queue, m.limit, m.budget, v),
    ensures
        m.parked_with(flow, filter).pushed(v).1 == DeliveryView::Handoff(flow),
        m.pushed(v).1 == DeliveryView::Queued,
        m.pushed(v).0.popped(filter).1 == Some(v),
{
    first_match_bounds(m.queue, filter, 0);
    let q = m.queue.push(v);
    assert(m.pushed(v).0.queue == q);
    first_match_bounds(q, filter, 0);
    let i = first_match(q, filter, 0) as int;
    assert(filter.admits(q[m.queue.len() as int]));
    if i < m.queue.len() {
        assert(q[i] == m.queue[i]);
        assert(!filter.admits(m.queue[i]));
    }
    if i == q.len() {
        assert(!filter.admits(q[m.queue.len() as int]));
    }
}

/// A message that the owner waits for is handed over even when the queue is
/// full, and takes no place in it.
pub proof fn awaited_message_needs_no_room(m: MailboxView, v: Value)
    requires
        m.wants(v),
    ensures
        m.pushed(v).1 == DeliveryView::Handoff(m.parked.unwrap()),
        m.pushed(v).0.queue == m.queue,
        m.pushed(v).0.parked is None,
{
}

/// A message that the owner does not wait for leaves it waiting.
pub proof fn other_messages_leave_the_owner_waiting(m: MailboxView, v: Value)
    requires
        !m.wants(v),
    ensures
        m.pushed(v).0.parked == m.parked,
        m.pushed(v).0.filter == m.filter,
        !(m.pushed(v).1 is Handoff),
{
}

/// A message that is refused or dropped wakes nobody and changes no queue.
pub proof fn lost_messages_wake_nobody(m: MailboxView, v: Value)
    requires
        m.pushed(v).1 is DroppedNewest || m.pushed(v).1 is Full,
    ensures
        m.pushed(v).0.parked == m.parked,
        m.pushed(v).0.queue == m.queue,
{
}

/// Deliveries keep a mailbox within its bounds, and so does letting a waiting
/// sender in.
pub proof fn mailbox_stays_within_bounds(m: MailboxView, v: Value)
    requires
        m.queue.len() <= m.limit,
        charge_sum(m.queue) <= m.budget,
    ensures
        m.pushed(v).0.queue.len() <= m.limit,
        charge_sum(m.pushed(v).0.queue) <= m.budget,
        m.admitted().0.queue.len() <= m.limit,
        charge_sum(m.admitted().0.queue) <= m.budget,
{
    enqueue_respects_bounds(m.queue, m.limit, m.budget, v, m.config.spec_overflow());
    if m.waiting.len() > 0 {
        assert(m.queue.push(m.waiting[0].1).drop_last() =~= m.queue);
    }
}

/// A request is answered only by a message with its own token from the flow
/// that was asked.
pub proof fn only_the_asked_flow_answers(
    m: MailboxView,
    reply: Message,
    request_id: u64,
    target: u64,
)
    requires
        m.filter == (WaitFilter::Correlation {
            expect_request_id: request_id,
            expect_sender: Some(target),
        }),
        m.pushed(Value::Message(reply)).1 is Handoff,
    ensures
        reply.request_id == request_id,
        reply.sender == target,
{
}

/// Refusals because of the byte budget are refusals: the rest of them is due to
/// the number of messages.
pub open spec fn refusals_split(m: MailboxView) -> bool {
    m.stats.rejected_byte_limit <= m.stats.rejected
}

/// The refusals split in a fresh mailbox, and whatever happens to it.
pub proof fn byte_refusals_are_refusals(
    m: MailboxView,
    config: MailboxConfig,
    v: Value,
    filter: WaitFilter,
    flow: FlowView,
)
    requires
        refusals_split(m),
    ensures
        refusals_split(MailboxView::fresh(config)),
        refusals_split(m.pushed(v).0),
        refusals_split(m.pushed_system(v).0),
        refusals_split(m.popped(filter).0),
        refusals_split(m.admitted().0),
        refusals_split(m.parked_with(flow, filter)),
        refusals_split(m.unparked()),
        m.statistics().rejected_byte_limit <= m.statistics().rejected,
        m.pushed(v).1 matches DeliveryView::Full(cause) ==> {
            &&& m.pushed(v).0.stats.rejected == one_more(m.stats.rejected)
            &&& m.pushed(v).0.stats.rejected_byte_limit == (if cause is Bytes {
                one_more(m.stats.rejected_byte_limit)
            } else {
                m.stats.rejected_byte_limit
            })
        },
        !(m.pushed(v).1 is Full) ==> m.pushed(v).0.stats.rejected == m.stats.rejected
            && m.pushed(v).0.stats.rejected_byte_limit == m.stats.rejected_byte_limit,
{
}

/// `v` is what a wait with this filter is for: anything, a message with the tag,
/// or a message with the token and, where one is expected, from the sender.
pub open spec fn is_for(filter: WaitFilter, v: Value) -> bool {
    match filter {
        WaitFilter::Any => true,
        WaitFilter::Tag(tag) => v is Message && v->Message_0.tag == tag,
        WaitFilter::Correlation { expect_request_id, expect_sender } => v is Message
            && v->Message_0.request_id == expect_request_id && (expect_sender is Some
            ==> v->Message_0.sender == expect_sender.unwrap()),
    }
}

/// A filter admits exactly what it is for.
pub proof fn filters_admit_what_they_are_for(filter: WaitFilter, v: Value)
    ensures
        filter.admits(v) <==> is_for(filter, v),
{
}

/// One more, or the largest count.
pub open spec fn counted(before: u64, after: u64) -> bool {
    after == before + 1 || (before == u64::MAX && after == u64::MAX)
}

/// Bounds, the number of the latest wait, the line of senders and whether the
/// mailbox is closed are as they were.
pub open spec fn same_frame(m: MailboxView, t: MailboxView) -> bool {
    &&& t.config == m.config
    &&& t.limit == m.limit
    &&& t.budget == m.budget
    &&& t.epoch == m.epoch
    &&& t.waiting == m.waiting
    &&& t.closed == m.closed
}

/// The owner was handed the message that arrived: it waits no longer, and the
/// queue is as it was.
pub open spec fn hands_over(m: MailboxView, v: Value, r: (MailboxView, DeliveryView)) -> bool {
    &&& m.parked matches Some(owner) && r.1 == DeliveryView::Handoff(owner)
    &&& r.0.parked is None
    &&& r.0.queue == m.queue
    &&& same_frame(m, r.0)
    &&& counted(m.stats.enqueued, r.0.stats.enqueued)
    &&& counted(m.stats.dequeued, r.0.stats.dequeued)
    &&& r.0.stats.rejected == m.stats.rejected
}

/// The owner waits, or does not, as it did, and the queue is `q`.
pub open spec fn queues(m: MailboxView, t: MailboxView, q: Seq<Value>) -> bool {
    &&& t.parked == m.parked
    &&& t.filter == m.filter
    &&& same_frame(m, t)
    &&& t.queue == q
    &&& t.stats.dequeued == m.stats.dequeued
}

/// What becomes of a message that arrives. The owner gets it if it waits for it.
/// Otherwise it is queued last if there is room. Without room it is refused,
/// dropped, or queued in place of as few of the oldest messages as possible, as
/// the mailbox is set up. All of it is counted.
pub proof fn arrival_is_exact(m: MailboxView, v: Value)
    requires
        m.queue.len() <= u64::MAX,
    ensures
        ({
            let (t, r) = m.pushed(v);
            if m.parked is Some && is_for(m.filter, v) {
                hands_over(m, v, (t, r))
            } else if has_room(m.queue, m.limit, m.budget, v) {
                r is Queued && queues(m, t, m.queue.push(v)) && counted(
                    m.stats.enqueued,
                    t.stats.enqueued,
                )
            } else if m.config.spec_overflow() == OverflowPolicy::Reject {
                &&& r matches DeliveryView::Full(cause) && (cause == MailboxFullReason::Messages
                    <==> m.queue.len() >= m.limit)
                &&& queues(m, t, m.queue)
                &&& counted(m.stats.rejected, t.stats.rejected)
                &&& t.stats.enqueued == m.stats.enqueued
            } else if m.config.spec_overflow() == OverflowPolicy::DropNewest || m.limit == 0
                || v.charge() > m.budget {
                &&& r is DroppedNewest
                &&& queues(m, t, m.queue)
                &&& counted(m.stats.dropped_newest, t.stats.dropped_newest)
                &&& t.stats.enqueued == m.stats.enqueued
            } else {
                &&& r is QueuedDropOldest
                &&& exists|n: int|
                    #![trigger slides_by(m.queue, m.limit, m.budget, v, t.queue, n)]
                    {
                        &&& slides_by(m.queue, m.limit, m.budget, v, t.queue, n)
                        &&& t.stats.dropped_oldest == m.stats.dropped_oldest + n
                            || t.stats.dropped_oldest == u64::MAX
                    }
                &&& queues(m, t, t.queue)
                &&& counted(m.stats.enqueued, t.stats.enqueued)
            }
        }),
{
    overflow_is_as_configured(m.queue, m.limit, m.budget, v, m.config.spec_overflow());
    let (after, r) = enqueued(m.queue, m.limit, m.budget, v, m.config.spec_overflow());
    match r {
        Ok(EnqueueEffect::DroppedOldest(n)) => {
            if !(m.parked is Some && is_for(m.filter, v)) {
                let t = m.pushed(v).0;
                assert(t.queue == after);
                assert(slides_by(m.queue, m.limit, m.budget, v, t.queue, n as int));
                assert(t.stats.dropped_oldest == m.stats.dropped_oldest + n
                    || t.stats.dropped_oldest == u64::MAX);
            }
        },
        _ => {},
    }
}

/// A notice of the runtime is handed to the owner that waits for it, and queued
/// last otherwise, whether there is room or not.
pub proof fn notices_always_arrive(m: MailboxView, v: Value)
    ensures
        ({
            let (t, r) = m.pushed_system(v);
            if m.parked is Some && is_for(m.filter, v) {
                hands_over(m, v, (t, r))
            } else {
                r is Queued && queues(m, t, m.queue.push(v)) && counted(
                    m.stats.enqueued,
                    t.stats.enqueued,
                )
            }
        }),
{
}

/// Taking a message out changes nothing but the queue, and is counted.
pub proof fn taking_changes_the_queue_only(m: MailboxView, filter: WaitFilter)
    ensures
        ({
            let (t, r) = m.popped(filter);
            &&& same_frame(m, t)
            &&& t.parked == m.parked
            &&& t.filter == m.filter
            &&& t.stats.enqueued == m.stats.enqueued
            &&& r matches Some(v) ==> is_for(filter, v) && t.queue.len() + 1 == m.queue.len()
                && counted(m.stats.dequeued, t.stats.dequeued)
            &&& r is None ==> t == m && forall|j: int|
                0 <= j < m.queue.len() ==> !is_for(filter, #[trigger] m.queue[j])
        }),
{
    first_match_bounds(m.queue, filter, 0);
    let i = first_match(m.queue, filter, 0) as int;
    if i == m.queue.len() {
        assert forall|j: int| 0 <= j < m.queue.len() implies !is_for(filter, #[trigger] m.queue[j]) by {
            assert(!filter.admits(m.queue[j]));
        }
    }
}

/// A wait has its owner, its filter and a number that the wait before did not
/// have; ending it ends nothing else. Neither touches a message.
pub proof fn waits_begin_and_end(m: MailboxView, flow: FlowView, filter: WaitFilter)
    ensures
        m.parked_with(flow, filter).parked == Some(flow),
        m.parked_with(flow, filter).filter == filter,
        m.parked_with(flow, filter).epoch != m.epoch,
        m.epoch < u64::MAX ==> m.parked_with(flow, filter).epoch == m.epoch + 1,
        m.parked_with(flow, filter).queue == m.queue,
        m.parked_with(flow, filter).waiting == m.waiting,
        m.parked_with(flow, filter).closed == m.closed,
        m.parked_with(flow, filter).stats == m.stats,
        m.unparked().parked is None,
        m.unparked().filter == WaitFilter::Any,
        m.unparked().queue == m.queue,
        m.unparked().stats == m.stats,
        same_frame(m, m.unparked()),
{
}

/// The first sender in line gets its message in, behind all that are queued, if
/// and only if there is room for it; the others move up.
pub proof fn first_in_line_gets_in(m: MailboxView)
    ensures
        ({
            let (t, sender) = m.admitted();
            if m.waiting.len() > 0 && has_room(m.queue, m.limit, m.budget, m.waiting[0].1) {
                &&& sender == Some(m.waiting[0].0)
                &&& t.queue == m.queue.push(m.waiting[0].1)
                &&& t.waiting.len() + 1 == m.waiting.len()
                &&& forall|k: int| 0 <= k < t.waiting.len() ==> #[trigger] t.waiting[k]
                    == m.waiting[k + 1]
                &&& t.parked == m.parked
                &&& t.filter == m.filter
                &&& t.epoch == m.epoch
                &&& t.closed == m.closed
                &&& counted(m.stats.enqueued, t.stats.enqueued)
            } else {
                sender is None && t == m
            }
        }),
{
}

/// A new mailbox is empty and open, nobody waits at it, and it has the bounds that
/// it was made with. Its occupancy is that of its queue.
pub proof fn mailbox_begins_empty(config: MailboxConfig, m: MailboxView)
    requires
        m.queue.len() <= usize::MAX,
    ensures
        ({
            let t = MailboxView::fresh(config);
            &&& t.config == config
            &&& t.limit == config.spec_capacity().hops()
            &&& t.budget == config.spec_bytes().budget()
            &&& t.queue.len() == 0
            &&& t.parked is None
            &&& t.waiting.len() == 0
            &&& !t.closed
            &&& t.stats.enqueued == 0 && t.stats.dequeued == 0 && t.stats.rejected == 0
        }),
        m.statistics().queued_messages == m.queue.len(),
        charge_sum(m.queue) <= usize::MAX ==> m.statistics().queued_bytes == charge_sum(m.queue),
        m.statistics().enqueued == m.stats.enqueued,
        m.statistics().dequeued == m.stats.dequeued,
        m.statistics().rejected == m.stats.rejected,
        m.statistics().dropped_newest == m.stats.dropped_newest,
        m.statistics().dropped_oldest == m.stats.dropped_oldest,
{
}

} // verus!
