//! What each request of a flow, each deadline and each wish of the host comes
//! to.

use vstd::prelude::*;

use super::capability::CapRights;
use super::endings::{announces, filter_keeps_only, finished_flow_is_gone, work_list_ends_all};
use super::error::SpawnErrorView;
use super::link::{LinkEntry, LinkId, LinksView};
use super::mailbox::laws::is_for;
use super::mailbox::{DeliveryView, MailboxView, WaitFilter};
use super::model::{
    applied, applied_ids, begun, child_gate, delivered, fired, parked_for_reply, parked_for_room,
    parked_on_mailbox, room_given, spawned, Lane, PendingView, SharedView,
};
use super::monitor::{FlowExitReason, MonitorEntry, MonitorRef, MonitorsView};
use super::process::{
    flows_hold_what_they_get, holds, next_count, same_flow, FlowId, FlowMetrics, FlowView, IdsView,
    OutcomeView, PendingSend, RestartPolicy,
};
use super::runtime::{host_sent, SendError};
use super::timer::{added, entries_are_due_after_their_delay, PayloadView, TimerEntryView};
use crate::bytecode::cap::rights_are_bits;
use crate::bytecode::chunk::Chunk;
use crate::bytecode::value::{Message, Value};
use crate::vm::fault::FaultView;
use crate::vm::native::NativeFn;
use crate::vm::result::VmResultView;

verus! {

/// The mailboxes of all flows but `x` are as they were, and the same flows are
/// alive.
pub open spec fn others_stay(s: SharedView, t: SharedView, x: FlowId) -> bool {
    &&& forall|y: u64| #[trigger] s.directory.dom().contains(y) <==> t.directory.dom().contains(y)
    &&& forall|y: u64|
        y != x.0 && s.directory.dom().contains(y) ==> #[trigger] t.directory[y] == s.directory[y]
}

/// Only mailboxes, the ready list, the waits and deadlines may differ.
pub open spec fn only_waits_change(s: SharedView, t: SharedView) -> bool {
    &&& t.caps == s.caps
    &&& t.monitors == s.monitors
    &&& t.links == s.links
    &&& t.registry == s.registry
    &&& t.kills == s.kills
    &&& t.metrics == s.metrics
    &&& t.quantum == s.quantum
    &&& t.mailbox == s.mailbox
    &&& t.max_flows == s.max_flows
    &&& t.endings == s.endings
}

// ---- delivery and waits -------------------------------------------------

/// A message for a flow that is gone goes nowhere. A flow that waits for it goes
/// on with it, in the register of its receive, and waits for no reply any more.
/// Otherwise it is offered to the mailbox, and it is reported whether that was
/// full. No other mailbox is touched.
pub proof fn delivery_is_exact(s: SharedView, lane: Lane, target: FlowId, v: Value)
    ensures
        ({
            let (t, refusal) = delivered(s, lane, target, v);
            let m = s.directory[target.0];
            if !s.directory.dom().contains(target.0) {
                t == s && refusal is None
            } else if m.parked is Some && is_for(m.filter, v) {
                let w = m.parked.unwrap();
                &&& refusal is None
                &&& t.ready == s.ready.push((lane, w.received(v)))
                &&& t.directory[target.0] == m.pushed(v).0
                &&& t.asks == s.asks.detached(w.id.0)
                &&& others_stay(s, t, target)
                &&& only_waits_change(s, t)
                &&& t.waiting_send == s.waiting_send && t.timer == s.timer
            } else {
                &&& refusal is Some <==> m.pushed(v).1 is Full
                &&& t.ready == s.ready
                &&& t.directory[target.0] == m.pushed(v).0
                &&& t.asks == s.asks
                &&& others_stay(s, t, target)
                &&& only_waits_change(s, t)
                &&& t.waiting_send == s.waiting_send && t.timer == s.timer
            }
        }),
{
}

/// The wait of a flow is limited, if it is, to `limit` milliseconds from `now` on:
/// the deadline is for this wait of this flow.
pub open spec fn limited_to(
    s: SharedView,
    t: SharedView,
    now: u64,
    limit: Option<u64>,
    flow: FlowId,
    dest_reg: u8,
) -> bool {
    match limit {
        None => t.timer == s.timer,
        Some(ms) => added(
            s.timer,
            t.timer,
            now + ms,
            PayloadView::WakeReceiver {
                pid: flow,
                dest_reg,
                epoch: t.directory[flow.0].epoch,
            },
        ),
    }
}

/// The flow waits in its own mailbox for what the filter is for. Nothing is
/// queued or taken, and nobody becomes ready.
pub open spec fn waits_in_mailbox(s: SharedView, t: SharedView, flow: FlowView, filter: WaitFilter) -> bool {
    let m = s.directory[flow.id.0];
    &&& t.directory[flow.id.0].parked == Some(flow)
    &&& t.directory[flow.id.0].filter == filter
    &&& t.directory[flow.id.0].epoch != m.epoch
    &&& t.directory[flow.id.0].queue == m.queue
    &&& t.directory[flow.id.0].waiting == m.waiting
    &&& others_stay(s, t, flow.id)
    &&& only_waits_change(s, t)
    &&& t.ready == s.ready
    &&& t.waiting_send == s.waiting_send
}

/// A flow that begins to wait takes the oldest message that it waits for and is
/// ready with it, or waits if there is none, up to its limit.
pub proof fn beginning_to_wait_is_exact(
    s: SharedView,
    now: u64,
    flow: FlowView,
    dest_reg: u8,
    limit: Option<u64>,
    filter: WaitFilter,
)
    requires
        s.directory.dom().contains(flow.id.0),
    ensures
        ({
            let t = parked_on_mailbox(s, now, flow, dest_reg, limit, filter);
            let m = s.directory[flow.id.0];
            match m.popped(filter).1 {
                Some(v) => {
                    &&& t.ready == s.ready.push(
                        (
                            Lane::Global,
                            FlowView { pending_message: None, ..flow }.received_at(dest_reg, v),
                        ),
                    )
                    &&& t.directory[flow.id.0] == m.popped(filter).0
                    &&& others_stay(s, t, flow.id)
                    &&& only_waits_change(s, t)
                    &&& t.timer == s.timer && t.asks == s.asks && t.waiting_send == s.waiting_send
                },
                None => {
                    &&& waits_in_mailbox(s, t, flow, filter)
                    &&& limited_to(s, t, now, limit, flow.id, dest_reg)
                    &&& t.asks == s.asks
                },
            }
        }),
{
    let m = s.directory[flow.id.0];
    let t = parked_on_mailbox(s, now, flow, dest_reg, limit, filter);
    match limit {
        Some(ms) => entries_are_due_after_their_delay(
            s.timer,
            now,
            ms,
            flow,
            flow.id,
            dest_reg,
            m.epoch.wrapping_add(1),
        ),
        None => {},
    }
}

/// A flow that waits for a reply takes one that is there already and is ready
/// with it; if the flow that it asked is gone, it is ready with a notice that says
/// so; otherwise it waits, up to its limit, and is listed with the flow that it
/// asked.
pub proof fn waiting_for_a_reply_is_exact(
    s: SharedView,
    now: u64,
    flow: FlowView,
    dest_reg: u8,
    limit: Option<u64>,
    filter: WaitFilter,
    target: FlowId,
)
    requires
        s.directory.dom().contains(flow.id.0),
    ensures
        ({
            let t = parked_for_reply(s, now, flow, dest_reg, limit, filter, target);
            let m = s.directory[flow.id.0];
            match m.popped(filter).1 {
                Some(v) => {
                    &&& t.ready == s.ready.push(
                        (
                            Lane::Global,
                            FlowView { pending_message: None, ..flow }.received_at(dest_reg, v),
                        ),
                    )
                    &&& t.directory[flow.id.0] == m.popped(filter).0
                    &&& others_stay(s, t, flow.id)
                    &&& only_waits_change(s, t)
                    &&& t.timer == s.timer && t.waiting_send == s.waiting_send
                    &&& !t.asks.by_asker.dom().contains(flow.id.0)
                },
                None => if s.directory.dom().contains(target.0) {
                    &&& waits_in_mailbox(s, t, flow, filter)
                    &&& limited_to(s, t, now, limit, flow.id, dest_reg)
                    &&& t.asks.by_asker.dom().contains(flow.id.0)
                    &&& t.asks.by_asker[flow.id.0] == target.0
                    &&& t.asks.waiters(target.0).len() > 0
                    &&& t.asks.waiters(target.0).last() == flow.id.0
                } else {
                    &&& exists|notice: Message|
                        {
                            &&& t.ready == s.ready.push(
                                (
                                    Lane::Global,
                                    #[trigger] flow.received_at(dest_reg, Value::Message(notice)),
                                ),
                            )
                            &&& notice.sender == target.0
                            &&& notice.tag == 0xFF02
                            &&& notice.payload == 1
                        }
                    &&& t.directory[flow.id.0].parked is None
                    &&& t.directory[flow.id.0].queue == m.queue
                    &&& others_stay(s, t, flow.id)
                    &&& only_waits_change(s, t)
                    &&& t.timer == s.timer && t.waiting_send == s.waiting_send
                    &&& !t.asks.by_asker.dom().contains(flow.id.0)
                },
            }
        }),
{
    let m = s.directory[flow.id.0];
    let t = parked_for_reply(s, now, flow, dest_reg, limit, filter, target);
    match limit {
        Some(ms) => entries_are_due_after_their_delay(
            s.timer,
            now,
            ms,
            flow,
            flow.id,
            dest_reg,
            m.epoch.wrapping_add(1),
        ),
        None => {},
    }
    let notice = Message {
        sender: target.0,
        reply_cap: 0,
        request_id: 0,
        tag: 0xFF02,
        payload: 1,
    };
    assert(super::model::gone_notice(target) == Value::Message(notice));
    let g = flow.received_at(dest_reg, Value::Message(notice));
    if m.popped(filter).1 is None && !s.directory.dom().contains(target.0) {
        assert(t.ready == s.ready.push((Lane::Global, g)));
    }
}

/// A flow that waits for room is last in the line of the mailbox, with its message
/// and what it goes on with, and the index knows where it waits.
pub proof fn waiting_for_room_is_exact(
    s: SharedView,
    flow: FlowView,
    target: FlowId,
    v: Value,
    pending: PendingSend,
)
    requires
        s.directory.dom().contains(target.0),
        !s.directory[target.0].closed,
    ensures
        ({
            let t = parked_for_room(s, flow, target, v, pending);
            let m = s.directory[target.0];
            let b = t.directory[target.0];
            &&& b.waiting.len() == m.waiting.len() + 1
            &&& forall|k: int| 0 <= k < m.waiting.len() ==> #[trigger] b.waiting[k] == m.waiting[k]
            &&& b.waiting.last() == (FlowView { pending_send: Some(pending), ..flow }, v)
            &&& b.queue == m.queue
            &&& b.parked == m.parked
            &&& b.filter == m.filter
            &&& b.epoch == m.epoch
            &&& !b.closed
            &&& t.waiting_send.dom().contains(flow.id.0)
            &&& t.waiting_send[flow.id.0] == target.0
            &&& others_stay(s, t, target)
            &&& only_waits_change(s, t)
            &&& t.ready == s.ready && t.asks == s.asks && t.timer == s.timer
        }),
{
}

/// When there may be room, the first sender in line gets its message in if it
/// fits. One that only sent is ready; one that asked waits for the reply to its
/// question from the flow that it asked, up to its limit.
pub proof fn room_is_given_in_order(s: SharedView, now: u64, lane: Lane, owner: FlowId)
    requires
        s.directory.dom().contains(owner.0),
    ensures
        ({
            let t = room_given(s, now, lane, owner);
            let (after, sender) = s.directory[owner.0].admitted();
            match sender {
                None => t.directory[owner.0] == s.directory[owner.0] && others_stay(s, t, owner)
                    && only_waits_change(s, t) && t.ready == s.ready && t.asks == s.asks && t.timer
                    == s.timer && t.waiting_send == s.waiting_send,
                Some(w) => {
                    let u = SharedView {
                        directory: s.directory.insert(owner.0, after),
                        waiting_send: s.waiting_send.remove(w.id.0),
                        ..s
                    };
                    let g = FlowView { pending_send: None, ..w };
                    match w.pending_send {
                        Some(
                            PendingSend::Ask { dest_reg, expect_request_id, expect_sender, timeout },
                        ) => t == parked_for_reply(
                            u,
                            now,
                            g,
                            dest_reg,
                            timeout,
                            WaitFilter::Correlation {
                                expect_request_id,
                                expect_sender: Some(expect_sender),
                            },
                            FlowId(expect_sender),
                        ),
                        _ => {
                            &&& t.ready == s.ready.push((lane, g))
                            &&& t.directory[owner.0] == after
                            &&& !t.waiting_send.dom().contains(w.id.0)
                            &&& others_stay(s, t, owner)
                            &&& only_waits_change(s, t)
                            &&& t.asks == s.asks && t.timer == s.timer
                        },
                    }
                },
            }
        }),
{
}

// ---- what a flow stops for: messages ------------------------------------

/// The flow as it stopped, with the instructions that it has executed.
pub open spec fn stopped(flow: FlowView) -> FlowView {
    FlowView { metrics: FlowMetrics { instructions: flow.vm.executed, ..flow.metrics }, ..flow }
}

/// The message as it arrives: from the flow that sent it, with a new capability
/// to answer it, and otherwise as it was written.
pub open spec fn as_sent(flow: FlowId, reply_cap: u64, m: Message) -> Message {
    Message {
        sender: flow.0,
        reply_cap,
        request_id: m.request_id,
        tag: m.tag,
        payload: m.payload,
    }
}

/// The capability is in the table, and bit `k` of its rights is set.
pub open spec fn grants(s: SharedView, cap: u64, k: u8) -> bool {
    s.caps.entries.dom().contains(cap) && (s.caps.entries[cap].rights.bits >> k) & 1 == 1
}

/// There is one capability more: handle `cap` reaches `flow`, with these rights
/// and no others.
pub open spec fn one_more_cap(s: SharedView, t: SharedView, cap: u64, flow: FlowId, bits: u8) -> bool {
    &&& t.caps.entries.dom().contains(cap)
    &&& t.caps.entries[cap].flow == flow
    &&& t.caps.entries[cap].rights.bits == bits
    &&& forall|c: u64| c != cap ==> (#[trigger] t.caps.entries.dom().contains(c)
        <==> s.caps.entries.dom().contains(c))
    &&& forall|c: u64| c != cap && #[trigger] s.caps.entries.dom().contains(c)
        ==> t.caps.entries[c] == s.caps.entries[c]
}

/// A send through a capability with the right to send delivers the message, as
/// sent by the flow, to the flow behind the capability, and to no other. The
/// sender goes on, unless the mailbox is full and refuses: then it waits there for
/// room, last in line. The message offers a new capability that can send to the
/// sender and do nothing else.
pub proof fn send_is_exact(
    s: SharedView,
    ids: IdsView,
    now: u64,
    flow: FlowView,
    cap: u64,
    m: Message,
)
    requires
        grants(s, cap, 0),
    ensures
        ({
            let (t, next) = applied(
                s,
                ids,
                now,
                flow,
                VmResultView::Send { target_cap: cap, message: Value::Message(m) },
            );
            let target = s.caps.entries[cap].flow;
            let v = Value::Message(as_sent(flow.id, ids.cap, m));
            let b = s.directory[target.0];
            &&& !(s.directory.dom().contains(target.0) && b.closed && b.pushed(v).1 is Full)
                ==> one_more_cap(s, t, ids.cap, flow.id, 1)
            &&& s.directory.dom().contains(target.0) && b.pushed(v).1 is Full && !b.closed ==> {
                &&& next is None
                &&& t.directory[target.0].waiting.last().0.id == flow.id
                &&& t.directory[target.0].waiting.last().0.pending_send == Some(
                    PendingSend::FireAndForget,
                )
                &&& t.directory[target.0].waiting.last().0.vm == flow.vm
                &&& t.directory[target.0].waiting.last().1 == v
                &&& t.directory[target.0].waiting.len() == b.waiting.len() + 1
                &&& t.directory[target.0].queue == b.queue
                &&& t.waiting_send.dom().contains(flow.id.0)
                &&& t.waiting_send[flow.id.0] == target.0
                &&& others_stay(s, t, target)
                &&& t.ready == s.ready
                &&& t.endings == s.endings
            }
            &&& s.directory.dom().contains(target.0) && !(b.pushed(v).1 is Full) ==> {
                &&& next matches Some(g) && g.id == flow.id && g.vm == flow.vm && next_count(
                    flow.metrics.messages_sent,
                    g.metrics.messages_sent,
                )
                &&& t.directory[target.0] == b.pushed(v).0
                &&& others_stay(s, t, target)
                &&& b.parked is Some && is_for(b.filter, v) ==> t.ready == s.ready.push(
                    (Lane::Local, b.parked.unwrap().received(v)),
                )
                &&& !(b.parked is Some && is_for(b.filter, v)) ==> t.ready == s.ready
                &&& t.endings == s.endings
                &&& next_count(s.metrics.messages_sent, t.metrics.messages_sent)
            }
            &&& !s.directory.dom().contains(target.0) ==> {
                &&& next matches Some(g) && g.id == flow.id && g.vm == flow.vm
                &&& t.directory == s.directory
                &&& t.ready == s.ready
                &&& t.endings == s.endings
            }
        }),
{
    rights_are_bits(s.caps.entries[cap].rights, 0);
    assert(1u8 << 0u8 == 1) by (bit_vector);
    let f = stopped(flow);
    let target = s.caps.entries[cap].flow;
    assert(m.authenticated(flow.id.0, ids.cap) == as_sent(flow.id, ids.cap, m));
    let t0 = super::model::sent_counted(super::model::stamped(s, ids, flow.id, m).0);
    delivery_is_exact(
        t0,
        Lane::Local,
        target,
        Value::Message(as_sent(flow.id, ids.cap, m)),
    );
}

/// Without the right, or without the capability, nothing is delivered: the flow
/// fails, and the reason says which capability it was.
pub proof fn powerless_hop_fails(
    s: SharedView,
    ids: IdsView,
    now: u64,
    flow: FlowView,
    cap: u64,
    m: Message,
    dest_reg: u8,
    limit: Option<u64>,
)
    ensures
        ({
            let lacking = "capability cap#"@ + crate::text::dec(cap as nat)
                + " lacks required rights"@;
            let unknown = "unknown or revoked capability cap#"@ + crate::text::dec(cap as nat);
            let why = if s.caps.entries.dom().contains(cap) {
                lacking
            } else {
                unknown
            };
            let sent = VmResultView::Send { target_cap: cap, message: Value::Message(m) };
            let asked = VmResultView::Ask {
                dest_reg,
                target_cap: cap,
                request: Value::Message(m),
                timeout: limit,
            };
            &&& !grants(s, cap, 0) ==> applied(s, ids, now, flow, sent) == (
                super::model::failed(s, stopped(flow), why),
                None::<FlowView>,
            )
            &&& !grants(s, cap, 1) ==> applied(s, ids, now, flow, asked) == (
                super::model::failed(s, stopped(flow), why),
                None::<FlowView>,
            )
        }),
{
    rights_are_bits(s.caps.entries[cap].rights, 0);
    rights_are_bits(s.caps.entries[cap].rights, 1);
    assert(1u8 << 0u8 == 1 && 1u8 << 1u8 == 2) by (bit_vector);
}

/// A receive takes the oldest message that it is for into its register, and the
/// flow goes on; the first sender in line may then get its message in. If there is
/// none, the flow waits for one, up to its limit.
pub proof fn receive_is_exact(
    s: SharedView,
    ids: IdsView,
    now: u64,
    flow: FlowView,
    dest_reg: u8,
    limit: Option<u64>,
    tag: Option<u16>,
)
    requires
        s.directory.dom().contains(flow.id.0),
    ensures
        ({
            let (t, next) = applied(
                s,
                ids,
                now,
                flow,
                VmResultView::Receive { dest_reg, timeout: limit, match_tag: tag },
            );
            let m = s.directory[flow.id.0];
            let filter = match tag {
                Some(n) => WaitFilter::Tag(n),
                None => WaitFilter::Any,
            };
            let f = FlowView { last_receive_dest: Some(dest_reg), ..stopped(flow) };
            match m.popped(filter).1 {
                Some(v) => {
                    &&& next == Some(f.received_at(dest_reg, v))
                    &&& t == room_given(
                        SharedView {
                            directory: s.directory.insert(flow.id.0, m.popped(filter).0),
                            ..s
                        },
                        now,
                        Lane::Local,
                        flow.id,
                    )
                },
                None => {
                    &&& next is None
                    &&& waits_in_mailbox(s, t, f, filter)
                    &&& limited_to(s, t, now, limit, flow.id, dest_reg)
                    &&& t.asks == s.asks
                },
            }
        }),
{
    let filter = match tag {
        Some(n) => WaitFilter::Tag(n),
        None => WaitFilter::Any,
    };
    let f = FlowView { last_receive_dest: Some(dest_reg), ..stopped(flow) };
    beginning_to_wait_is_exact(s, now, f, dest_reg, limit, filter);
}

/// An ask through a capability with the right to ask delivers the request, as
/// asked by the flow, to the flow behind the capability; the asker then waits for
/// the message with its token from that flow and for no other. If the mailbox
/// is full, it waits there for room first, and knows what it asked.
pub proof fn ask_is_exact(
    s: SharedView,
    ids: IdsView,
    now: u64,
    flow: FlowView,
    dest_reg: u8,
    cap: u64,
    m: Message,
    limit: Option<u64>,
)
    requires
        grants(s, cap, 1),
        s.directory.dom().contains(flow.id.0),
    ensures
        ({
            let (t, next) = applied(
                s,
                ids,
                now,
                flow,
                VmResultView::Ask {
                    dest_reg,
                    target_cap: cap,
                    request: Value::Message(m),
                    timeout: limit,
                },
            );
            let target = s.caps.entries[cap].flow;
            let v = Value::Message(as_sent(flow.id, ids.cap, m));
            let b = s.directory[target.0];
            let filter = WaitFilter::Correlation {
                expect_request_id: m.request_id,
                expect_sender: Some(target.0),
            };
            &&& s.directory.dom().contains(target.0) && b.pushed(v).1 is Full && !b.closed ==> {
                &&& next is None
                &&& t.directory[target.0].waiting.last().0.id == flow.id
                &&& t.directory[target.0].waiting.last().0.vm == flow.vm
                &&& t.directory[target.0].waiting.last().0.pending_send == Some(
                    PendingSend::Ask {
                        dest_reg,
                        expect_request_id: m.request_id,
                        expect_sender: target.0,
                        timeout: limit,
                    },
                )
                &&& t.directory[target.0].waiting.last().1 == v
                &&& t.directory[target.0].waiting.len() == b.waiting.len() + 1
                &&& t.waiting_send.dom().contains(flow.id.0)
                &&& t.waiting_send[flow.id.0] == target.0
                &&& others_stay(s, t, target)
                &&& t.ready == s.ready
                &&& one_more_cap(s, t, ids.cap, flow.id, 1)
            }
            &&& s.directory.dom().contains(target.0) && !(b.pushed(v).1 is Full) && target != flow.id
                && s.directory[flow.id.0].popped(filter).1 is None ==> {
                &&& next is None
                &&& t.directory[target.0] == b.pushed(v).0
                &&& t.directory[flow.id.0].parked is Some
                &&& t.directory[flow.id.0].parked.unwrap().id == flow.id
                &&& t.directory[flow.id.0].parked.unwrap().vm == flow.vm
                &&& t.directory[flow.id.0].parked.unwrap().last_receive_dest == Some(dest_reg)
                &&& t.directory[flow.id.0].filter == filter
                &&& t.directory[flow.id.0].queue == s.directory[flow.id.0].queue
                &&& t.asks.by_asker.dom().contains(flow.id.0)
                &&& t.asks.by_asker[flow.id.0] == target.0
                &&& limited_to(s, t, now, limit, flow.id, dest_reg)
                &&& one_more_cap(s, t, ids.cap, flow.id, 1)
                &&& t.endings == s.endings
            }
            &&& !s.directory.dom().contains(target.0) && s.directory[flow.id.0].popped(filter).1
                is None ==> {
                &&& next is None
                &&& t.ready.len() == s.ready.len() + 1
                &&& t.ready.last().1.id == flow.id
                &&& t.directory[flow.id.0].parked is None
                &&& t.endings == s.endings
            }
        }),
{
    rights_are_bits(s.caps.entries[cap].rights, 1);
    assert(1u8 << 1u8 == 2) by (bit_vector);
    let target = s.caps.entries[cap].flow;
    let v = Value::Message(as_sent(flow.id, ids.cap, m));
    assert(m.authenticated(flow.id.0, ids.cap) == as_sent(flow.id, ids.cap, m));
    let t0 = super::model::sent_counted(super::model::stamped(s, ids, flow.id, m).0);
    delivery_is_exact(t0, Lane::Local, target, v);
    let u = delivered(t0, Lane::Local, target, v).0;
    let f = FlowView { last_receive_dest: Some(dest_reg), ..stopped(flow) }.counted_sent();
    waiting_for_a_reply_is_exact(
        u,
        now,
        f,
        dest_reg,
        limit,
        WaitFilter::Correlation {
            expect_request_id: m.request_id,
            expect_sender: Some(target.0),
        },
        target,
    );
}

// ---- what a flow stops for: the rest ------------------------------------

/// Nothing but the table of capabilities differs.
pub open spec fn only_caps_change(s: SharedView, t: SharedView) -> bool {
    &&& t.directory == s.directory
    &&& t.monitors == s.monitors
    &&& t.links == s.links
    &&& t.registry == s.registry
    &&& t.kills == s.kills
    &&& t.waiting_send == s.waiting_send
    &&& t.asks == s.asks
    &&& t.timer == s.timer
    &&& t.metrics == s.metrics
    &&& t.ready == s.ready
    &&& t.endings == s.endings
    &&& t.quantum == s.quantum && t.mailbox == s.mailbox && t.max_flows == s.max_flows
}

/// A flow that asks for itself gets, in its register, a new capability that can
/// send to it and ask it, and goes on.
pub proof fn self_is_exact(s: SharedView, ids: IdsView, now: u64, flow: FlowView, dest_reg: u8)
    ensures
        ({
            let (t, next) = applied(s, ids, now, flow, VmResultView::SelfPid { dest_reg });
            &&& next matches Some(g) && holds(flow, g, dest_reg, Value::Cap(ids.cap))
            &&& one_more_cap(s, t, ids.cap, flow.id, 3)
            &&& only_caps_change(s, t)
        }),
{
    flows_hold_what_they_get(stopped(flow), dest_reg, Value::Cap(ids.cap));
}

/// A delegation gives the flow a new capability for the flow of the source. It has
/// a right if and only if the source has it and it was asked for. The source stays
/// as it is. A native mask can be asked for only of a source that may call
/// natives.
pub proof fn delegation_is_exact(
    s: SharedView,
    ids: IdsView,
    now: u64,
    flow: FlowView,
    dest_reg: u8,
    src: u64,
    want: CapRights,
    mask: Option<u64>,
    k: u8,
)
    requires
        k < 8,
    ensures
        ({
            let (t, next) = applied(
                s,
                ids,
                now,
                flow,
                VmResultView::Delegate {
                    dest_reg,
                    src_cap: src,
                    want_rights: want,
                    want_native_cap: mask,
                },
            );
            let e = s.caps.entries[src];
            let possible = {
                &&& s.caps.entries.dom().contains(src)
                &&& mask matches Some(c) ==> s.caps.entries.dom().contains(c) && (e.rights.bits
                    >> 2u8) & 1 == 1
            };
            &&& possible ==> {
                &&& next matches Some(g) && holds(flow, g, dest_reg, Value::Cap(ids.cap))
                &&& t.caps.entries.dom().contains(ids.cap)
                &&& t.caps.entries[ids.cap].flow == e.flow
                &&& (t.caps.entries[ids.cap].rights.bits >> k) & 1 == 1 <==> (e.rights.bits >> k) & 1
                    == 1 && (want.bits >> k) & 1 == 1
                &&& forall|c: u64| c != ids.cap && #[trigger] s.caps.entries.dom().contains(c)
                    ==> t.caps.entries.dom().contains(c) && t.caps.entries[c] == s.caps.entries[c]
                &&& only_caps_change(s, t)
            }
            &&& !possible ==> next is None
        }),
{
    let e = s.caps.entries[src];
    flows_hold_what_they_get(stopped(flow), dest_reg, Value::Cap(ids.cap));
    rights_are_bits(e.rights, 2);
    assert(1u8 << 2u8 == 4) by (bit_vector);
    let (p, q) = (e.rights.bits, want.bits);
    assert(((p & q) >> k) & 1 == 1 <==> (p >> k) & 1 == 1 && (q >> k) & 1 == 1) by (bit_vector)
        requires
            k < 8,
    ;
}

/// A number as an integer value; the largest integer for one that does not fit.
pub open spec fn number_value(n: u64, v: Value) -> bool {
    v matches Value::Int(i) && (n <= i64::MAX ==> i == n) && (n > i64::MAX ==> i == i64::MAX)
}

/// A monitor is one entry more, from the flow to the flow behind the capability;
/// the flow gets its number. A link likewise. Neither is possible with oneself or
/// through a capability that is not there.
pub proof fn relations_are_exact(
    s: SharedView,
    ids: IdsView,
    now: u64,
    flow: FlowView,
    dest_reg: u8,
    cap: u64,
)
    ensures
        ({
            let monitored = applied(
                s,
                ids,
                now,
                flow,
                VmResultView::Monitor { dest_reg, target_cap: cap },
            );
            let linked = applied(s, ids, now, flow, VmResultView::Link { dest_reg, target_cap: cap });
            let target = s.caps.entries[cap].flow;
            let possible = s.caps.entries.dom().contains(cap) && target != flow.id;
            &&& possible ==> {
                &&& monitored.1 is Some
                &&& exists|v: Value|
                    number_value(s.monitors.next, v) && #[trigger] holds(
                        flow,
                        monitored.1.unwrap(),
                        dest_reg,
                        v,
                    )
                &&& monitored.0.monitors.entries.len() == s.monitors.entries.len() + 1
                &&& monitored.0.monitors.entries.last().owner == flow.id
                &&& monitored.0.monitors.entries.last().target == target
                &&& monitored.0.monitors.entries.last().monitor.0 == s.monitors.next
                &&& monitored.0.monitors.entries.drop_last() == s.monitors.entries
                &&& monitored.0 == (SharedView { monitors: monitored.0.monitors, ..s })
                &&& linked.1 is Some
                &&& exists|v: Value|
                    number_value(s.links.next, v) && #[trigger] holds(
                        flow,
                        linked.1.unwrap(),
                        dest_reg,
                        v,
                    )
                &&& linked.0.links.entries.len() == s.links.entries.len() + 1
                &&& linked.0.links.entries.last().a == flow.id
                &&& linked.0.links.entries.last().b == target
                &&& linked.0.links.entries.last().link.0 == s.links.next
                &&& linked.0.links.entries.drop_last() == s.links.entries
                &&& linked.0 == (SharedView { links: linked.0.links, ..s })
            }
            &&& !possible ==> monitored.1 is None && linked.1 is None
        }),
{
    let f = stopped(flow);
    let m = super::model::int_of(s.monitors.next);
    let l = super::model::int_of(s.links.next);
    flows_hold_what_they_get(f, dest_reg, m);
    flows_hold_what_they_get(f, dest_reg, l);
    let monitored = applied(s, ids, now, flow, VmResultView::Monitor { dest_reg, target_cap: cap });
    let linked = applied(s, ids, now, flow, VmResultView::Link { dest_reg, target_cap: cap });
    if s.caps.entries.dom().contains(cap) && s.caps.entries[cap].flow != flow.id {
        assert(holds(flow, monitored.1.unwrap(), dest_reg, m));
        assert(holds(flow, linked.1.unwrap(), dest_reg, l));
        assert(monitored.0.monitors.entries.drop_last() =~= s.monitors.entries);
        assert(linked.0.links.entries.drop_last() =~= s.links.entries);
    }
}

/// The number in a register of the running function.
pub open spec fn number_in_register(flow: FlowView, reg: u8, n: u64) -> bool {
    &&& flow.vm.frames.len() > 0
    &&& reg < flow.vm.frames.last().registers.len()
    &&& flow.vm.frames.last().registers[reg as int] matches Value::Int(i) && i == n
}

/// A flow drops a monitor or a link that is its own, by the number in the register
/// that it names: that one is gone, all others stay, and the flow goes on. Of one
/// that is not its own it cannot.
pub proof fn dropping_relations_is_exact(
    s: SharedView,
    ids: IdsView,
    now: u64,
    flow: FlowView,
    reg: u8,
    n: u64,
)
    requires
        number_in_register(flow, reg, n),
    ensures
        ({
            let (t, next) = applied(s, ids, now, flow, VmResultView::Demonitor { monitor_reg: reg });
            let mine = |e: MonitorEntry| e.monitor.0 == n && e.owner == flow.id;
            let owned = exists|i: int|
                0 <= i < s.monitors.entries.len() && mine(#[trigger] s.monitors.entries[i]);
            &&& next is Some <==> owned
            &&& owned ==> {
                &&& next matches Some(g) && g.id == flow.id && g.vm == flow.vm
                &&& forall|e: MonitorEntry| #[trigger]
                    t.monitors.entries.contains(e) <==> s.monitors.entries.contains(e) && !mine(e)
                &&& t == (SharedView { monitors: t.monitors, ..s })
            }
        }),
        ({
            let (t, next) = applied(s, ids, now, flow, VmResultView::Unlink { link_reg: reg });
            let mine = |e: LinkEntry| e.link.0 == n && (e.a == flow.id || e.b == flow.id);
            let owned = exists|i: int|
                0 <= i < s.links.entries.len() && mine(#[trigger] s.links.entries[i]);
            &&& next is Some <==> owned
            &&& owned ==> {
                &&& next matches Some(g) && g.id == flow.id && g.vm == flow.vm
                &&& forall|e: LinkEntry| #[trigger]
                    t.links.entries.contains(e) <==> s.links.entries.contains(e) && !mine(e)
                &&& t == (SharedView { links: t.links, ..s })
            }
        }),
{
    let f = stopped(flow);
    monitors_drop_one(s.monitors, flow.id, MonitorRef(n));
    links_drop_one(s.links, flow.id, LinkId(n));
    assert(super::model::reference_in(f, reg) == Some(n));
}

/// Dropping a monitor of a flow drops it and no other.
pub proof fn monitors_drop_one(m: MonitorsView, owner: FlowId, monitor: MonitorRef)
    ensures
        m.owns(owner, monitor) <==> exists|i: int|
            0 <= i < m.entries.len() && (#[trigger] m.entries[i]).monitor == monitor
                && m.entries[i].owner == owner,
        forall|e: MonitorEntry| #[trigger]
            m.dropped(owner, monitor).entries.contains(e) <==> m.entries.contains(e) && !(e.monitor
                == monitor && e.owner == owner),
        m.dropped(owner, monitor).next == m.next,
{
    let p = |e: MonitorEntry| !(e.monitor == monitor && e.owner == owner);
    filter_keeps_only(m.entries, p);
    let left = m.dropped(owner, monitor).entries;
    assert forall|e: MonitorEntry| #[trigger] left.contains(e) implies m.entries.contains(e) && p(
        e,
    ) by {
        let j = choose|j: int| 0 <= j < left.len() && left[j] == e;
        assert(m.entries.contains(left[j]));
    }
}

/// Dropping a link of a flow drops it and no other.
pub proof fn links_drop_one(l: LinksView, owner: FlowId, link: LinkId)
    ensures
        l.owns(owner, link) <==> exists|i: int|
            0 <= i < l.entries.len() && (#[trigger] l.entries[i]).link == link && (
            l.entries[i].a == owner || l.entries[i].b == owner),
        forall|e: LinkEntry| #[trigger]
            l.dropped(owner, link).entries.contains(e) <==> l.entries.contains(e) && !(e.link == link
                && (e.a == owner || e.b == owner)),
        l.dropped(owner, link).next == l.next,
{
    let p = |e: LinkEntry| !(e.link == link && e.joins(owner));
    filter_keeps_only(l.entries, p);
    let left = l.dropped(owner, link).entries;
    assert forall|e: LinkEntry| #[trigger] left.contains(e) implies l.entries.contains(e) && p(
        e,
    ) by {
        let j = choose|j: int| 0 <= j < left.len() && left[j] == e;
        assert(l.entries.contains(left[j]));
    }
    if l.owns(owner, link) {
        let i = choose|i: int|
            0 <= i < l.entries.len() && (#[trigger] l.entries[i]).link == link
                && l.entries[i].joins(owner);
        assert(l.entries[i].a == owner || l.entries[i].b == owner);
    }
    if exists|i: int|
        0 <= i < l.entries.len() && (#[trigger] l.entries[i]).link == link && (l.entries[i].a
            == owner || l.entries[i].b == owner) {
        let i = choose|i: int|
            0 <= i < l.entries.len() && (#[trigger] l.entries[i]).link == link && (l.entries[i].a
                == owner || l.entries[i].b == owner);
        assert(l.entries[i].joins(owner));
    }
}

/// A flow that yields is ready again, last, in the queue of its worker, as it was.
/// One that sleeps is on the timer, as it was, due when its time is over.
pub proof fn pauses_are_exact(s: SharedView, ids: IdsView, now: u64, flow: FlowView, ms: u64)
    ensures
        ({
            let (t, next) = applied(s, ids, now, flow, VmResultView::Yield);
            &&& next is None
            &&& t.ready.len() == s.ready.len() + 1
            &&& t.ready.drop_last() == s.ready
            &&& t.ready.last().0 == Lane::Local
            &&& t.ready.last().1.id == flow.id
            &&& t.ready.last().1.vm == flow.vm
            &&& same_flow(flow, t.ready.last().1)
            &&& t == (SharedView { ready: t.ready, metrics: t.metrics, ..s })
            &&& next_count(s.metrics.reschedules, t.metrics.reschedules)
        }),
        ({
            let (t, next) = applied(s, ids, now, flow, VmResultView::Sleep(ms));
            &&& next is None
            &&& exists|g: FlowView|
                {
                    &&& #[trigger] added(
                        s.timer,
                        t.timer,
                        now + ms,
                        PayloadView::WakeSleeper(g),
                    )
                    &&& same_flow(flow, g)
                    &&& g.vm == flow.vm
                }
            &&& t == (SharedView { timer: t.timer, ..s })
        }),
{
    let f = stopped(flow);
    entries_are_due_after_their_delay(s.timer, now, ms, f, FlowId(0), 0, 0);
    let t = applied(s, ids, now, flow, VmResultView::Yield).0;
    assert(t.ready.drop_last() =~= s.ready);
    assert(same_flow(flow, f));
}

/// A flow that completes is gone, and its result is announced; one that faults is
/// gone, and the text of the fault is.
pub proof fn ends_are_exact(
    s: SharedView,
    ids: IdsView,
    now: u64,
    flow: FlowView,
    v: Value,
    fault: FaultView,
)
    requires
        s.directory.dom().finite(),
    ensures
        ({
            let (t, next) = applied(s, ids, now, flow, VmResultView::Complete(v));
            &&& next is None
            &&& !t.directory.dom().contains(flow.id.0)
            &&& announces(t, flow.id, OutcomeView::Completed(v))
            &&& s.endings.is_prefix_of(t.endings)
        }),
        ({
            let (t, next) = applied(s, ids, now, flow, VmResultView::Trap(fault));
            &&& next is None
            &&& !t.directory.dom().contains(flow.id.0)
            &&& announces(t, flow.id, OutcomeView::Failed(fault.spec_text()))
            &&& s.endings.is_prefix_of(t.endings)
        }),
{
    let f = stopped(flow);
    finished_flow_is_gone(s, f, OutcomeView::Completed(v), FlowExitReason::Normal);
    finished_flow_is_gone(
        s,
        f,
        OutcomeView::Failed(fault.spec_text()),
        FlowExitReason::Fault,
    );
    work_list_ends_all(
        s,
        seq![
            PendingView {
                flow: f,
                outcome: OutcomeView::Completed(v),
                reason: FlowExitReason::Normal,
            },
        ],
    );
    work_list_ends_all(
        s,
        seq![
            PendingView {
                flow: f,
                outcome: OutcomeView::Failed(fault.spec_text()),
                reason: FlowExitReason::Fault,
            },
        ],
    );
}

// ---- new flows ----------------------------------------------------------

/// A flow is refused if as many are alive as may be, if its function does not
/// exist, or if a parameter has no register, and then nothing changes. Otherwise
/// there is one flow more, with the next number: it has an empty mailbox, and is
/// ready, last, at the entry of its function with its arguments in its parameters.
pub proof fn spawning_is_exact(
    s: SharedView,
    ids: IdsView,
    chunk: Chunk,
    natives: Seq<Option<(Seq<char>, NativeFn)>>,
    gate: Seq<bool>,
    function: u32,
    args: Seq<Value>,
    policy: RestartPolicy,
    supervisor: Option<u64>,
)
    ensures
        ({
            let (t, r) = spawned(s, ids, chunk, natives, gate, function, args, policy, supervisor);
            let def = chunk.functions@[function as int];
            let loaded = if args.len() < def.arity {
                args.len() as int
            } else {
                def.arity as int
            };
            let full = s.max_flows > 0 && s.directory.dom().len() >= s.max_flows;
            &&& full || function >= chunk.functions@.len() || loaded > def.num_registers ==> r is Err
                && t == s
            &&& full ==> (r matches Err(SpawnErrorView::FlowLimit { max, .. }) && max == s.max_flows)
            &&& !full && function < chunk.functions@.len() && loaded <= def.num_registers ==> {
                let g = t.ready.last().1;
                &&& r == Ok::<_, SpawnErrorView>(FlowId(ids.flow))
                &&& t.directory.dom() == s.directory.dom().insert(ids.flow)
                &&& t.directory[ids.flow] == MailboxView::fresh(s.mailbox)
                &&& forall|x: u64|
                    x != ids.flow && #[trigger] s.directory.dom().contains(x) ==> t.directory[x]
                        == s.directory[x]
                &&& t.ready.len() == s.ready.len() + 1
                &&& t.ready.drop_last() == s.ready
                &&& t.ready.last().0 == Lane::Global
                &&& g.id.0 == ids.flow
                &&& g.restart_policy == policy
                &&& g.supervisor == supervisor
                &&& g.vm.chunk == chunk
                &&& g.vm.natives == natives
                &&& g.vm.gate == gate
                &&& g.vm.executed == 0
                &&& g.vm.frames.len() == 1
                &&& g.vm.frames[0].function == function
                &&& g.vm.frames[0].pc == def.entry
                &&& g.vm.frames[0].dest_reg is None
                &&& g.vm.frames[0].registers.len() == def.num_registers
                &&& forall|k: int|
                    0 <= k < def.num_registers ==> #[trigger] g.vm.frames[0].registers[k] == (if k
                        < loaded {
                        args[k]
                    } else {
                        Value::Unit
                    })
                &&& next_count(s.metrics.processes_spawned, t.metrics.processes_spawned)
                &&& t == (SharedView {
                    directory: t.directory,
                    ready: t.ready,
                    metrics: t.metrics,
                    ..s
                })
            }
        }),
{
    let (t, r) = spawned(s, ids, chunk, natives, gate, function, args, policy, supervisor);
    if r is Ok {
        assert(t.directory.dom() =~= s.directory.dom().insert(ids.flow));
        assert(t.ready.drop_last() =~= s.ready);
    }
}

/// A flow that starts a child gets, in its register, a new capability that can
/// send to the child and ask it, and goes on. The child runs the parent's module
/// under the parent's restart policy, and may call a native if and only if the
/// parent may, unless rights without that to call natives were asked for: then it
/// may call none. If the child cannot be started, the parent fails.
pub proof fn spawn_is_exact(
    s: SharedView,
    ids: IdsView,
    now: u64,
    flow: FlowView,
    function: u32,
    args: Seq<Value>,
    dest_reg: u8,
    rights: CapRights,
    k: int,
)
    requires
        flow.vm.gate.len() == flow.vm.natives.len(),
        0 <= k < flow.vm.gate.len(),
    ensures
        ({
            let gate = child_gate(flow.vm, rights);
            let (u, started) = spawned(
                s,
                ids,
                flow.vm.chunk,
                flow.vm.natives,
                gate,
                function,
                args,
                flow.restart_policy,
                None,
            );
            let (t, next) = applied(
                s,
                ids,
                now,
                flow,
                VmResultView::Spawn { function, args, dest_reg, requested_rights: rights },
            );
            &&& gate.len() == flow.vm.gate.len()
            &&& gate[k] <==> flow.vm.gate[k] && (rights.bits == 0 || (rights.bits >> 2u8) & 1 == 1)
            &&& started matches Ok(child) ==> {
                &&& next matches Some(g) && holds(flow, g, dest_reg, Value::Cap(ids.cap))
                &&& one_more_cap(u, t, ids.cap, child, 3)
                &&& only_caps_change(u, t)
            }
            &&& started is Err ==> next is None
        }),
{
    flows_hold_what_they_get(stopped(flow), dest_reg, Value::Cap(ids.cap));
    rights_are_bits(rights, 2);
    assert(1u8 << 2u8 == 4) by (bit_vector);
    let b = rights.bits;
    assert(b & 4 == 4 <==> (b >> 2u8) & 1 == 1) by (bit_vector);
}

// ---- deadlines, workers and the host ------------------------------------

/// A sleeper whose time has come is ready, as it was. A wait whose limit has come
/// ends, if the flow is still in that very wait: the flow is ready with unit in
/// its register and waits for no reply any more. Any other deadline does nothing.
pub proof fn deadlines_are_exact(s: SharedView, e: TimerEntryView)
    ensures
        match e.payload {
            PayloadView::WakeSleeper(f) => fired(s, e) == (SharedView {
                ready: s.ready.push((Lane::Global, f)),
                ..s
            }),
            PayloadView::WakeReceiver { pid, dest_reg, epoch } => {
                let t = fired(s, e);
                let m = s.directory[pid.0];
                if s.directory.dom().contains(pid.0) && m.epoch == epoch && m.parked is Some {
                    let w = m.parked.unwrap();
                    &&& t.ready.len() == s.ready.len() + 1
                    &&& t.ready.drop_last() == s.ready
                    &&& t.ready.last().0 == Lane::Global
                    &&& holds(w, t.ready.last().1, dest_reg, Value::Unit)
                    &&& t.directory[pid.0].parked is None
                    &&& t.directory[pid.0].queue == m.queue
                    &&& t.directory[pid.0].waiting == m.waiting
                    &&& t.asks == s.asks.detached(w.id.0)
                    &&& others_stay(s, t, pid)
                    &&& only_waits_change(s, t)
                    &&& t.timer == s.timer && t.waiting_send == s.waiting_send
                } else {
                    &&& t.ready == s.ready
                    &&& t.asks == s.asks
                    &&& others_stay(s, t, pid)
                    &&& s.directory.dom().contains(pid.0) ==> t.directory[pid.0].queue == m.queue
                        && t.directory[pid.0].parked == m.parked && t.directory[pid.0].epoch == m.epoch
                    &&& only_waits_change(s, t)
                    &&& t.timer == s.timer && t.waiting_send == s.waiting_send
                }
            },
        },
{
    match e.payload {
        PayloadView::WakeReceiver { pid, dest_reg, epoch } => {
            let m = s.directory[pid.0];
            if s.directory.dom().contains(pid.0) && m.epoch == epoch && m.parked is Some {
                flows_hold_what_they_get(m.parked.unwrap(), dest_reg, Value::Unit);
                assert(fired(s, e).ready.drop_last() =~= s.ready);
            }
        },
        _ => {},
    }
}

/// A flow that gets a worker and is not marked goes on: with the message that is
/// pending for it in the register of its receive, or as it is. Nothing else
/// changes.
pub proof fn unmarked_flow_goes_on(s: SharedView, flow: FlowView)
    requires
        !s.kills.dom().contains(flow.id.0),
    ensures
        ({
            let (t, next) = begun(s, flow);
            &&& t == s
            &&& flow.pending_message is None ==> next == Some(flow)
            &&& flow.pending_message matches Some(v) ==> (flow.last_receive_dest matches Some(dest)
                ==> (next matches Some(g) && holds(flow, g, dest, v) && g.pending_message is None))
        }),
{
    let bare = FlowView { pending_message: None, ..flow };
    match flow.pending_message {
        Some(v) => match flow.last_receive_dest {
            Some(dest) => flows_hold_what_they_get(bare, dest, v),
            None => {},
        },
        None => {},
    }
    assert(s.kills.remove(flow.id.0) =~= s.kills);
}

/// A message of the host is delivered as it is to the flow it is for. A flow that
/// waits for it goes on with it. The host is told if it is no message, if the flow
/// is not there, or if its mailbox is full, and why.
pub proof fn host_send_is_exact(s: SharedView, target: FlowId, v: Value)
    ensures
        ({
            let (t, r) = host_sent(s, target, v);
            let m = s.directory[target.0];
            if !(v is Message) {
                t == s && (r matches Err(SendError::NotAHop { .. }))
            } else if !s.directory.dom().contains(target.0) {
                t == s && r == Err::<(), _>(SendError::NoSuchFlow(target))
            } else {
                &&& t.directory[target.0] == m.pushed(v).0
                &&& others_stay(s, t, target)
                &&& only_waits_change(s, t)
                &&& t.timer == s.timer && t.waiting_send == s.waiting_send
                &&& if m.parked is Some && is_for(m.filter, v) {
                    let w = m.parked.unwrap();
                    &&& r is Ok
                    &&& t.ready.len() == s.ready.len() + 1
                    &&& t.ready.drop_last() == s.ready
                    &&& t.ready.last().0 == Lane::Global
                    &&& w.last_receive_dest matches Some(dest) ==> holds(
                        w,
                        t.ready.last().1,
                        dest,
                        v,
                    )
                    &&& t.asks == s.asks.detached(w.id.0)
                } else {
                    &&& t.ready == s.ready
                    &&& t.asks == s.asks
                    &&& match m.pushed(v).1 {
                        DeliveryView::Full(reason) => r == Err::<(), _>(
                            SendError::MailboxFull { flow: target, reason },
                        ),
                        _ => r is Ok,
                    }
                }
            }
        }),
{
    let m = s.directory[target.0];
    if v is Message && s.directory.dom().contains(target.0) && m.parked is Some && is_for(
        m.filter,
        v,
    ) {
        let w = m.parked.unwrap();
        match w.last_receive_dest {
            Some(dest) => flows_hold_what_they_get(w, dest, v),
            None => {},
        }
        assert(host_sent(s, target, v).0.ready.drop_last() =~= s.ready);
    }
}

/// One number is drawn for each flow that starts and one for each capability that
/// is made, and none for anything else: a flow that asks for itself draws one, a
/// message that may be sent draws one for its reply, and a child draws both. A
/// child that cannot be started has drawn its own if there was room for it.
pub proof fn numbers_are_drawn_as_needed(
    s: SharedView,
    ids: IdsView,
    flow: FlowView,
    dest_reg: u8,
    cap: u64,
    m: Message,
    timeout: Option<u64>,
    function: u32,
    args: Seq<Value>,
    rights: CapRights,
    r: VmResultView,
)
    ensures
        ({
            let own = applied_ids(s, ids, flow, VmResultView::SelfPid { dest_reg });
            next_count(ids.cap, own.cap) && own.flow == ids.flow
        }),
        ({
            let sent = applied_ids(
                s,
                ids,
                flow,
                VmResultView::Send { target_cap: cap, message: Value::Message(m) },
            );
            &&& sent.flow == ids.flow
            &&& grants(s, cap, 0) ==> next_count(ids.cap, sent.cap)
            &&& !grants(s, cap, 0) ==> sent == ids
        }),
        ({
            let asked = applied_ids(
                s,
                ids,
                flow,
                VmResultView::Ask {
                    dest_reg,
                    target_cap: cap,
                    request: Value::Message(m),
                    timeout,
                },
            );
            &&& asked.flow == ids.flow
            &&& grants(s, cap, 1) ==> next_count(ids.cap, asked.cap)
            &&& !grants(s, cap, 1) ==> asked == ids
        }),
        ({
            let start = VmResultView::Spawn { function, args, dest_reg, requested_rights: rights };
            let after = applied_ids(s, ids, flow, start);
            let full = s.max_flows > 0 && s.directory.dom().len() >= s.max_flows;
            let started = spawned(
                s,
                ids,
                flow.vm.chunk,
                flow.vm.natives,
                child_gate(flow.vm, rights),
                function,
                args,
                flow.restart_policy,
                None,
            ).1 is Ok;
            &&& full ==> after == ids
            &&& !full ==> next_count(ids.flow, after.flow)
            &&& started ==> next_count(ids.cap, after.cap)
            &&& !started ==> after.cap == ids.cap
        }),
        r is Complete || r is Trap || r is Yield || r is Sleep || r is Receive || r is Monitor
            || r is Demonitor || r is Link || r is Unlink ==> applied_ids(s, ids, flow, r) == ids,
{
    if s.caps.entries.dom().contains(cap) {
        rights_are_bits(s.caps.entries[cap].rights, 0);
        rights_are_bits(s.caps.entries[cap].rights, 1);
    }
}

} // verus!
