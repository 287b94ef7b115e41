//! What holds of the scheduler as a whole.

use vstd::prelude::*;

use super::capability::CapRights;
use super::endings::{announces, finished_flow_is_gone};
use super::link::{LinkEntry, LinkId, LinksView};
use super::mailbox::{MailboxView, WaitFilter};
use super::model::{
    after_ask, after_delegate, after_demonitor, after_link, after_monitor, after_receive,
    after_send, after_spawn, after_unlink, applied, begun, cap_target_for, child_gate, delivered,
    failed, fired, finished, kill_requested, parked_for_reply, parked_for_room, parked_on_mailbox,
    room_given, sent_counted, spawned, spawned_ids, stamped, Lane, SharedView,
};
use super::monitor::{FlowExitReason, MonitorEntry, MonitorRef, MonitorsView};
use super::process::{
    FlowId, FlowMetrics, FlowView, IdsView, OutcomeView, PendingSend, RestartPolicy,
};
use super::timer::{due_at, slot, slot_bounds, PayloadView, TimerEntryView};
use crate::bytecode::cap::intersection_never_escalates;
use crate::bytecode::chunk::Chunk;
use crate::bytecode::value::{Message, Value};
use crate::seqs::filter_all;
use crate::vm::native::{gate_allows, NativeFn};
use crate::vm::result::VmResultView;
use crate::vm::semantics::VmView;

verus! {

/// Dropping a monitor that the flow does not have changes nothing.
pub proof fn dropping_nothing(m: MonitorsView, owner: FlowId, monitor: MonitorRef)
    requires
        !m.owns(owner, monitor),
    ensures
        m.dropped(owner, monitor) == m,
{
    filter_all(m.entries, |e: MonitorEntry| !(e.monitor == monitor && e.owner == owner));
}

/// Dropping a link that the flow does not have changes nothing.
pub proof fn unlinking_nothing(l: LinksView, owner: FlowId, link: LinkId)
    requires
        !l.owns(owner, link),
    ensures
        l.dropped(owner, link) == l,
{
    filter_all(l.entries, |e: LinkEntry| !(e.link == link && e.joins(owner)));
}

// ---- who sends what -----------------------------------------------------

/// Whatever a flow writes into the sender and the reply capability of a
/// message, sending it or asking with it comes to the same.
pub proof fn sender_cannot_be_forged(
    s: SharedView,
    ids: IdsView,
    now: u64,
    flow: FlowView,
    target_cap: u64,
    m: Message,
    forged: Message,
    dest_reg: u8,
    timeout: Option<u64>,
)
    requires
        m.request_id == forged.request_id,
        m.tag == forged.tag,
        m.payload == forged.payload,
    ensures
        after_send(s, ids, flow, target_cap, Value::Message(m)) == after_send(
            s,
            ids,
            flow,
            target_cap,
            Value::Message(forged),
        ),
        after_ask(s, ids, now, flow, dest_reg, target_cap, Value::Message(m), timeout) == after_ask(
            s,
            ids,
            now,
            flow,
            dest_reg,
            target_cap,
            Value::Message(forged),
            timeout,
        ),
{
    assert(stamped(s, ids, flow.id, m) == stamped(s, ids, flow.id, forged));
}

/// The sender of a stamped message is the flow that sent it, and its reply
/// capability sends to that flow and can do nothing else.
pub proof fn stamp_names_the_sender(s: SharedView, ids: IdsView, flow: FlowId, m: Message)
    ensures
        ({
            let (t, hop) = stamped(s, ids, flow, m);
            &&& hop.sender == flow.0
            &&& hop.request_id == m.request_id && hop.tag == m.tag && hop.payload == m.payload
            &&& cap_target_for(t, hop.reply_cap, CapRights::send()) == Ok::<FlowId, Seq<char>>(flow)
            &&& cap_target_for(t, hop.reply_cap, CapRights::ask()) is Err
            &&& cap_target_for(t, hop.reply_cap, CapRights::native()) is Err
        }),
{
    assert(1u8 & 1u8 == 1u8) by (bit_vector);
    assert(1u8 & 2u8 == 0u8) by (bit_vector);
    assert(1u8 & 4u8 == 0u8) by (bit_vector);
}

/// A message that the target does not wait for and that fits is the last one
/// in its queue, stamped, and the sender goes on.
pub proof fn sent_message_is_queued(
    s: SharedView,
    ids: IdsView,
    flow: FlowView,
    target_cap: u64,
    m: Message,
    target: FlowId,
)
    requires
        cap_target_for(s, target_cap, CapRights::send()) == Ok::<FlowId, Seq<char>>(target),
        s.alive(target),
        !s.directory[target.0].wants(Value::Message(m.authenticated(flow.id.0, ids.cap))),
        super::mailbox::queue::fits(
            s.directory[target.0].queue,
            s.directory[target.0].limit,
            s.directory[target.0].budget,
            Value::Message(m.authenticated(flow.id.0, ids.cap)),
        ),
    ensures
        ({
            let (t, f) = after_send(s, ids, flow, target_cap, Value::Message(m));
            &&& f == Some(flow.counted_sent())
            &&& t.alive(target)
            &&& t.directory[target.0].queue == s.directory[target.0].queue.push(
                Value::Message(m.authenticated(flow.id.0, ids.cap)),
            )
            &&& t.directory[target.0].parked == s.directory[target.0].parked
            &&& t.ready == s.ready
            &&& forall|other: u64| #[trigger]
                s.directory.dom().contains(other) && other != target.0 ==> t.directory[other]
                    == s.directory[other]
        }),
{
}

/// A flow that waits for the message gets it at once, in the register of its
/// receive.
pub proof fn sent_message_wakes_the_waiter(
    s: SharedView,
    ids: IdsView,
    flow: FlowView,
    target_cap: u64,
    m: Message,
    target: FlowId,
    waiter: FlowView,
)
    requires
        cap_target_for(s, target_cap, CapRights::send()) == Ok::<FlowId, Seq<char>>(target),
        s.alive(target),
        s.directory[target.0].parked == Some(waiter),
        s.directory[target.0].filter.admits(
            Value::Message(m.authenticated(flow.id.0, ids.cap)),
        ),
    ensures
        ({
            let (t, f) = after_send(s, ids, flow, target_cap, Value::Message(m));
            &&& f == Some(flow.counted_sent())
            &&& t.ready.last() == (
                Lane::Local,
                waiter.received(Value::Message(m.authenticated(flow.id.0, ids.cap))),
            )
            &&& t.directory[target.0].queue == s.directory[target.0].queue
            &&& t.directory[target.0].parked is None
        }),
{
}

// ---- capabilities -------------------------------------------------------

/// A capability that was never minted or was revoked, or that lacks the right
/// to send or to ask, delivers nothing: the flow that uses it fails.
pub proof fn refused_capability_delivers_nothing(
    s: SharedView,
    ids: IdsView,
    now: u64,
    flow: FlowView,
    raw: u64,
    m: Message,
    dest_reg: u8,
    timeout: Option<u64>,
)
    ensures
        cap_target_for(s, raw, CapRights::send()) matches Err(why) ==> after_send(
            s,
            ids,
            flow,
            raw,
            Value::Message(m),
        ) == (failed(s, flow, why), None::<FlowView>),
        cap_target_for(s, raw, CapRights::ask()) matches Err(why) ==> after_ask(
            s,
            ids,
            now,
            flow,
            dest_reg,
            raw,
            Value::Message(m),
            timeout,
        ) == (failed(s, flow, why), None::<FlowView>),
        s.caps.resolved(raw) is None ==> {
            &&& cap_target_for(s, raw, CapRights::send()) is Err
            &&& cap_target_for(s, raw, CapRights::ask()) is Err
        },
        s.caps.resolved(raw) matches Some(e) ==> {
            &&& !e.rights.includes(CapRights::send()) ==> cap_target_for(
                s,
                raw,
                CapRights::send(),
            ) is Err
            &&& !e.rights.includes(CapRights::ask()) ==> cap_target_for(
                s,
                raw,
                CapRights::ask(),
            ) is Err
        },
{
}

/// Delegation never adds: the new capability reaches the flow of the source,
/// with rights that the source has and that were asked for.
pub proof fn delegation_never_escalates(
    s: SharedView,
    ids: IdsView,
    flow: FlowView,
    dest_reg: u8,
    src_cap: u64,
    want_rights: CapRights,
    want_native_cap: Option<u64>,
    right: CapRights,
)
    requires
        after_delegate(s, ids, flow, dest_reg, src_cap, want_rights, want_native_cap).1 is Some,
    ensures
        ({
            let t = after_delegate(s, ids, flow, dest_reg, src_cap, want_rights, want_native_cap).0;
            &&& s.caps.resolved(src_cap) matches Some(src)
            &&& t.caps.resolved(ids.cap) matches Some(narrowed)
            &&& narrowed.flow == src.flow
            &&& narrowed.rights.includes(right) ==> src.rights.includes(right)
                && want_rights.includes(right)
        }),
{
    match s.caps.resolved(src_cap) {
        Some(src) => intersection_never_escalates(src.rights, want_rights, right),
        None => {},
    }
}

/// A child can call no native that its parent cannot.
pub proof fn child_calls_no_more_natives(parent: VmView, requested: CapRights, index: int)
    requires
        parent.gate.len() == parent.natives.len(),
    ensures
        gate_allows(child_gate(parent, requested), index) ==> gate_allows(parent.gate, index),
        requested.bits != 0 && !requested.includes(CapRights::native()) ==> !gate_allows(
            child_gate(parent, requested),
            index,
        ),
{
}

// ---- time ---------------------------------------------------------------

/// A wait with a limit ends at its deadline: the flow goes on with `Unit` in
/// the register of its receive, provided that it still is in that wait.
pub proof fn deadline_ends_the_wait(
    s: SharedView,
    now: u64,
    flow: FlowView,
    dest_reg: u8,
    delay: u64,
    filter: WaitFilter,
)
    requires
        s.alive(flow.id),
        s.directory[flow.id.0].popped(filter).1 is None,
    ensures
        ({
            let t = parked_on_mailbox(s, now, flow, dest_reg, Some(delay), filter);
            let e = TimerEntryView {
                deadline: due_at(now, delay),
                payload: PayloadView::WakeReceiver {
                    pid: flow.id,
                    dest_reg,
                    epoch: s.directory[flow.id.0].epoch.wrapping_add(1),
                },
            };
            &&& t.timer == s.timer.scheduled(e)
            &&& t.directory[flow.id.0].parked == Some(flow)
            &&& fired(t, e).ready == t.ready.push(
                (Lane::Global, flow.resumed(dest_reg, Value::Unit)),
            )
            &&& fired(t, e).directory[flow.id.0].parked is None
        }),
{
}

/// A deadline of an earlier wait does nothing.
pub proof fn late_deadline_is_ignored(s: SharedView, e: TimerEntryView)
    requires
        e.payload matches PayloadView::WakeReceiver { pid, dest_reg, epoch } && (s.alive(pid)
            ==> s.directory[pid.0].epoch != epoch),
    ensures
        fired(s, e) == s,
{
}

/// A flow that sleeps goes on when its time has come, as it was.
pub proof fn sleeper_wakes(s: SharedView, ids: IdsView, now: u64, flow: FlowView, delay: u64)
    ensures
        ({
            let (t, f) = applied(s, ids, now, flow, VmResultView::Sleep(delay));
            let asleep = FlowView {
                metrics: FlowMetrics { instructions: flow.vm.executed, ..flow.metrics },
                ..flow
            };
            let e = TimerEntryView {
                deadline: due_at(now, delay),
                payload: PayloadView::WakeSleeper(asleep),
            };
            &&& f is None
            &&& t.timer == s.timer.scheduled(e)
            &&& fired(t, e).ready == s.ready.push((Lane::Global, asleep))
        }),
{
}

// ---- flows come and go --------------------------------------------------

/// No flow came to life.
pub open spec fn no_new_flows(s: SharedView, t: SharedView) -> bool {
    t.directory.dom().subset_of(s.directory.dom()) && t.directory.dom().finite() && t.max_flows
        == s.max_flows
}

proof fn failing_keeps_limit(s: SharedView, work: Seq<super::model::PendingView>)
    requires
        s.directory.dom().finite(),
    ensures
        super::model::all_finalized(s, work).max_flows == s.max_flows,
    decreases s.directory.dom().len(), s.links.entries.len(), work.len(),
{
    if work.len() > 0 {
        let p = work.last();
        let (u, more) = super::model::one_finalized(s, p);
        super::model::finalizing_shrinks(s, p);
        super::endings::ending_keeps_settings(s, p);
        failing_keeps_limit(u, work.drop_last() + more);
    }
}

proof fn finishing_adds_none(
    s: SharedView,
    flow: FlowView,
    outcome: OutcomeView,
    reason: FlowExitReason,
)
    requires
        s.directory.dom().finite(),
    ensures
        no_new_flows(s, finished(s, flow, outcome, reason)),
{
    finished_flow_is_gone(s, flow, outcome, reason);
    failing_keeps_limit(s, seq![super::model::PendingView { flow, outcome, reason }]);
}

proof fn same_flows(s: SharedView, t: SharedView)
    requires
        s.directory.dom().finite(),
        t.directory.dom() =~= s.directory.dom(),
        t.max_flows == s.max_flows,
    ensures
        no_new_flows(s, t),
{
}

proof fn failing_adds_none(s: SharedView, flow: FlowView, text: Seq<char>)
    requires
        s.directory.dom().finite(),
    ensures
        no_new_flows(s, failed(s, flow, text)),
{
    finishing_adds_none(s, flow, OutcomeView::Failed(text), FlowExitReason::Fault);
}

proof fn delivering_adds_none(s: SharedView, lane: Lane, target: FlowId, v: Value)
    requires
        s.directory.dom().finite(),
    ensures
        no_new_flows(s, delivered(s, lane, target, v).0),
        delivered(s, lane, target, v).0.directory.dom() == s.directory.dom(),
{
    assert(delivered(s, lane, target, v).0.directory.dom() =~= s.directory.dom());
}

proof fn parking_adds_none(
    s: SharedView,
    now: u64,
    flow: FlowView,
    dest_reg: u8,
    timeout: Option<u64>,
    filter: WaitFilter,
    target: FlowId,
)
    requires
        s.directory.dom().finite(),
    ensures
        no_new_flows(s, parked_on_mailbox(s, now, flow, dest_reg, timeout, filter)),
        no_new_flows(s, parked_for_reply(s, now, flow, dest_reg, timeout, filter, target)),
{
    let free = SharedView {
        asks: s.asks.attached(flow.id.0, target.0).detached(flow.id.0),
        ..s
    };
    failing_adds_none(s, flow, "mailbox gone"@);
    failing_adds_none(free, flow, "mailbox gone"@);
    if s.alive(flow.id) {
        same_flows(s, parked_on_mailbox(s, now, flow, dest_reg, timeout, filter));
        same_flows(s, parked_for_reply(s, now, flow, dest_reg, timeout, filter, target));
    }
}

proof fn waiting_adds_none(
    s: SharedView,
    flow: FlowView,
    target: FlowId,
    v: Value,
    pending: PendingSend,
)
    requires
        s.directory.dom().finite(),
    ensures
        no_new_flows(s, parked_for_room(s, flow, target, v, pending)),
{
    let f = FlowView { pending_send: Some(pending), ..flow };
    let t = SharedView {
        waiting_send: s.waiting_send.insert(f.id.0, target.0).remove(f.id.0),
        ..s
    };
    failing_adds_none(t, f, "send target gone"@);
    if s.alive(target) && !s.directory[target.0].closed {
        same_flows(s, parked_for_room(s, flow, target, v, pending));
    }
}

proof fn admitting_adds_none(s: SharedView, now: u64, lane: Lane, owner: FlowId)
    requires
        s.directory.dom().finite(),
    ensures
        no_new_flows(s, room_given(s, now, lane, owner)),
{
    if s.alive(owner) {
        let (after, sender) = s.directory[owner.0].admitted();
        match sender {
            None => same_flows(s, room_given(s, now, lane, owner)),
            Some(sender) => {
                let t = SharedView {
                    waiting_send: s.waiting_send.remove(sender.id.0),
                    ..s.with_mailbox(owner, after)
                };
                same_flows(s, t);
                let f = FlowView { pending_send: None, ..sender };
                match sender.pending_send {
                    Some(
                        PendingSend::Ask { dest_reg, expect_request_id, expect_sender, timeout },
                    ) => {
                        parking_adds_none(
                            t,
                            now,
                            f,
                            dest_reg,
                            timeout,
                            WaitFilter::Correlation {
                                expect_request_id,
                                expect_sender: Some(expect_sender),
                            },
                            FlowId(expect_sender),
                        );
                    },
                    _ => {},
                }
            },
        }
    }
}

/// The number of live flows stays within the limit.
pub open spec fn within_limit(s: SharedView) -> bool {
    s.directory.dom().finite() && (s.max_flows > 0 ==> s.directory.dom().len() <= s.max_flows)
}

/// Starting a flow keeps the number of live flows within the limit.
pub proof fn spawning_respects_the_limit(
    s: SharedView,
    ids: IdsView,
    chunk: Chunk,
    natives: Seq<Option<(Seq<char>, NativeFn)>>,
    gate: Seq<bool>,
    function: u32,
    args: Seq<Value>,
    restart_policy: RestartPolicy,
    supervisor: Option<u64>,
)
    requires
        within_limit(s),
    ensures
        within_limit(
            spawned(s, ids, chunk, natives, gate, function, args, restart_policy, supervisor).0,
        ),
{
}

proof fn fewer_flows_fit(s: SharedView, t: SharedView)
    requires
        within_limit(s),
        no_new_flows(s, t),
    ensures
        within_limit(t),
{
    vstd::set_lib::lemma_len_subset(t.directory.dom(), s.directory.dom());
}

/// Whatever a flow stops for, the number of live flows stays within the limit.
pub proof fn applying_respects_the_limit(s: SharedView, ids: IdsView, now: u64, flow: FlowView, r: VmResultView)
    requires
        within_limit(s),
    ensures
        within_limit(applied(s, ids, now, flow, r).0),
{
    let f = FlowView {
        metrics: FlowMetrics { instructions: flow.vm.executed, ..flow.metrics },
        ..flow
    };
    let t = applied(s, ids, now, flow, r).0;
    assert forall|text: Seq<char>| no_new_flows(s, #[trigger] failed(s, f, text)) by {
        failing_adds_none(s, f, text);
    }
    match r {
        VmResultView::Complete(v) => {
            finishing_adds_none(s, f, OutcomeView::Completed(v), FlowExitReason::Normal);
            fewer_flows_fit(s, t);
        },
        VmResultView::Spawn { function, args, dest_reg, requested_rights } => {
            let gate = child_gate(f.vm, requested_rights);
            spawning_respects_the_limit(
                s,
                ids,
                f.vm.chunk,
                f.vm.natives,
                gate,
                function,
                args,
                f.restart_policy,
                None,
            );
            let (u, outcome) = spawned(
                s,
                ids,
                f.vm.chunk,
                f.vm.natives,
                gate,
                function,
                args,
                f.restart_policy,
                None,
            );
            match outcome {
                Ok(_) => {},
                Err(e) => {
                    failing_adds_none(u, f, e.spec_text());
                    fewer_flows_fit(u, t);
                },
            }
        },
        VmResultView::Send { target_cap, message } => {
            send_adds_none(s, ids, f, target_cap, message);
            fewer_flows_fit(s, t);
        },
        VmResultView::Receive { dest_reg, timeout, match_tag } => {
            receive_adds_none(s, now, f, dest_reg, timeout, match_tag);
            fewer_flows_fit(s, t);
        },
        VmResultView::Ask { dest_reg, target_cap, request, timeout } => {
            ask_adds_none(s, ids, now, f, dest_reg, target_cap, request, timeout);
            fewer_flows_fit(s, t);
        },
        _ => fewer_flows_fit(s, t),
    }
}

proof fn send_adds_none(s: SharedView, ids: IdsView, flow: FlowView, target_cap: u64, message: Value)
    requires
        s.directory.dom().finite(),
    ensures
        no_new_flows(s, after_send(s, ids, flow, target_cap, message).0),
{
    match message.spec_as_message() {
        None => failing_adds_none(
            s,
            flow,
            "Send invariant broken: hop is not Value::Message"@,
        ),
        Some(m) => match cap_target_for(s, target_cap, CapRights::send()) {
            Err(e) => failing_adds_none(s, flow, e),
            Ok(target) => {
                let (t, hop) = stamped(s, ids, flow.id, m);
                let v = Value::Message(hop);
                delivering_adds_none(sent_counted(t), Lane::Local, target, v);
                let u = delivered(sent_counted(t), Lane::Local, target, v).0;
                waiting_adds_none(
                    u,
                    flow.counted_sent(),
                    target,
                    v,
                    PendingSend::FireAndForget,
                );
            },
        },
    }
}

proof fn receive_adds_none(
    s: SharedView,
    now: u64,
    flow: FlowView,
    dest_reg: u8,
    timeout: Option<u64>,
    match_tag: Option<u16>,
)
    requires
        s.directory.dom().finite(),
    ensures
        no_new_flows(s, after_receive(s, now, flow, dest_reg, timeout, match_tag).0),
{
    let f = FlowView { last_receive_dest: Some(dest_reg), ..flow };
    let filter = match match_tag {
        None => WaitFilter::Any,
        Some(tag) => WaitFilter::Tag(tag),
    };
    failing_adds_none(s, f, "mailbox gone"@);
    parking_adds_none(s, now, f, dest_reg, timeout, filter, f.id);
    if s.alive(f.id) {
        let after = s.directory[f.id.0].popped(filter).0;
        let t = s.with_mailbox(f.id, after);
        same_flows(s, t);
        admitting_adds_none(t, now, Lane::Local, f.id);
    }
}

proof fn ask_adds_none(
    s: SharedView,
    ids: IdsView,
    now: u64,
    flow: FlowView,
    dest_reg: u8,
    target_cap: u64,
    request: Value,
    timeout: Option<u64>,
)
    requires
        s.directory.dom().finite(),
    ensures
        no_new_flows(s, after_ask(s, ids, now, flow, dest_reg, target_cap, request, timeout).0),
{
    match request.spec_as_message() {
        None => failing_adds_none(
            s,
            flow,
            "Ask invariant broken: request is not Value::Message"@,
        ),
        Some(m) => match cap_target_for(s, target_cap, CapRights::ask()) {
            Err(e) => failing_adds_none(s, flow, e),
            Ok(target) => {
                let (t, hop) = stamped(s, ids, flow.id, m);
                let f = FlowView { last_receive_dest: Some(dest_reg), ..flow }.counted_sent();
                let v = Value::Message(hop);
                let filter = WaitFilter::Correlation {
                    expect_request_id: hop.request_id,
                    expect_sender: Some(target.0),
                };
                delivering_adds_none(sent_counted(t), Lane::Local, target, v);
                let u = delivered(sent_counted(t), Lane::Local, target, v).0;
                waiting_adds_none(
                    u,
                    f,
                    target,
                    v,
                    PendingSend::Ask {
                        dest_reg,
                        expect_request_id: hop.request_id,
                        expect_sender: target.0,
                        timeout,
                    },
                );
                failing_adds_none(u, f, "mailbox gone"@);
                parking_adds_none(u, now, f, dest_reg, timeout, filter, target);
                if u.alive(f.id) {
                    same_flows(u, u.with_mailbox(f.id, u.directory[f.id.0].popped(filter).0));
                }
            },
        },
    }
}

/// A new flow gets an identity that no live flow has, as long as identities
/// have not been used up.
pub proof fn new_flow_is_distinct(
    s: SharedView,
    ids: IdsView,
    chunk: Chunk,
    natives: Seq<Option<(Seq<char>, NativeFn)>>,
    gate: Seq<bool>,
    function: u32,
    args: Seq<Value>,
    restart_policy: RestartPolicy,
    supervisor: Option<u64>,
)
    requires
        forall|x: u64| #[trigger] s.directory.dom().contains(x) ==> x < ids.flow,
        ids.flow < u64::MAX,
    ensures
        ({
            let (t, r) = spawned(
                s,
                ids,
                chunk,
                natives,
                gate,
                function,
                args,
                restart_policy,
                supervisor,
            );
            &&& r matches Ok(id) ==> !s.alive(id) && t.alive(id) && t.directory[id.0]
                == MailboxView::fresh(s.mailbox)
            &&& forall|x: u64| #[trigger] t.directory.dom().contains(x) ==> x < spawned_ids(s, ids).flow
            &&& forall|x: u64| #[trigger]
                s.directory.dom().contains(x) ==> t.directory.dom().contains(x) && t.directory[x]
                    == s.directory[x]
        }),
{
}

/// No other step starts a flow.
pub proof fn other_steps_respect_the_limit(
    s: SharedView,
    flow: FlowView,
    e: TimerEntryView,
    id: FlowId,
    reason: FlowExitReason,
)
    requires
        within_limit(s),
    ensures
        within_limit(begun(s, flow).0),
        within_limit(fired(s, e)),
        within_limit(kill_requested(s, id, reason)),
{
    let f = match flow.pending_message {
        Some(v) => FlowView { pending_message: None, ..flow }.received(v),
        None => flow,
    };
    let t = SharedView { kills: s.kills.remove(f.id.0), ..s };
    match super::waits::found(s.kills, f.id.0) {
        None => {},
        Some(why) => {
            finishing_adds_none(
                t,
                f,
                OutcomeView::Failed("linked exit ("@ + why.spec_text()@ + ")"@),
                why,
            );
            fewer_flows_fit(t, begun(s, flow).0);
        },
    }
    same_flows(s, fired(s, e));
    fewer_flows_fit(s, fired(s, e));
    super::endings::extracting_touches(s, id, reason);
    match super::model::extracted(s, id, reason) {
        (u, Some(taken)) => {
            finishing_adds_none(
                u,
                taken,
                OutcomeView::Failed("killed ("@ + reason.spec_text()@ + ")"@),
                reason,
            );
            fewer_flows_fit(u, kill_requested(s, id, reason));
        },
        (u, None) => {},
    }
}

// ---- no flow gets lost --------------------------------------------------

pub open spec fn in_run_queue(t: SharedView, id: FlowId) -> bool {
    exists|i: int| 0 <= i < t.ready.len() && (#[trigger] t.ready[i]).1.id == id
}

pub open spec fn asleep(t: SharedView, id: FlowId) -> bool {
    exists|i: int|
        0 <= i < t.timer.entries.len() && ((#[trigger] t.timer.entries[i]).payload matches
            PayloadView::WakeSleeper(f) && f.id == id)
}

pub open spec fn waits_for_message(t: SharedView, id: FlowId) -> bool {
    t.alive(id) && (t.directory[id.0].parked matches Some(f) && f.id == id)
}

pub open spec fn waits_for_room(t: SharedView, id: FlowId) -> bool {
    exists|at: u64, i: int|
        t.directory.dom().contains(at) && 0 <= i < t.directory[at].waiting.len() && (
        #[trigger] t.directory[at].waiting[i]).0.id == id
}

pub open spec fn has_ended(t: SharedView, id: FlowId) -> bool {
    exists|outcome: OutcomeView| #[trigger] announces(t, id, outcome)
}

/// Someone holds the flow, or it has ended.
pub open spec fn accounted_for(t: SharedView, id: FlowId) -> bool {
    ||| in_run_queue(t, id)
    ||| asleep(t, id)
    ||| waits_for_message(t, id)
    ||| waits_for_room(t, id)
    ||| has_ended(t, id)
}

proof fn failed_is_accounted_for(s: SharedView, flow: FlowView, text: Seq<char>)
    requires
        s.directory.dom().finite(),
    ensures
        accounted_for(failed(s, flow, text), flow.id),
{
    finished_flow_is_gone(s, flow, OutcomeView::Failed(text), FlowExitReason::Fault);
    assert(announces(failed(s, flow, text), flow.id, OutcomeView::Failed(text)));
}

proof fn last_ready_is_accounted_for(s: SharedView, lane: Lane, f: FlowView)
    ensures
        accounted_for(s.made_ready(lane, f), f.id),
{
    let t = s.made_ready(lane, f);
    assert(t.ready[s.ready.len() as int].1.id == f.id);
}

proof fn parked_is_accounted_for(
    s: SharedView,
    now: u64,
    flow: FlowView,
    dest_reg: u8,
    timeout: Option<u64>,
    filter: WaitFilter,
    target: FlowId,
)
    requires
        s.directory.dom().finite(),
    ensures
        accounted_for(parked_on_mailbox(s, now, flow, dest_reg, timeout, filter), flow.id),
        accounted_for(
            parked_for_reply(s, now, flow, dest_reg, timeout, filter, target),
            flow.id,
        ),
{
    let free = SharedView {
        asks: s.asks.attached(flow.id.0, target.0).detached(flow.id.0),
        ..s
    };
    failed_is_accounted_for(s, flow, "mailbox gone"@);
    failed_is_accounted_for(free, flow, "mailbox gone"@);
    match s.mailbox_of(flow.id) {
        None => {},
        Some(m) => {
            let a = parked_on_mailbox(s, now, flow, dest_reg, timeout, filter);
            let b = parked_for_reply(s, now, flow, dest_reg, timeout, filter, target);
            match m.popped(filter) {
                (after, Some(v)) => {
                    let f = FlowView { pending_message: None, ..flow }.received_at(dest_reg, v);
                    last_ready_is_accounted_for(s.with_mailbox(flow.id, after), Lane::Global, f);
                    last_ready_is_accounted_for(free.with_mailbox(flow.id, after), Lane::Global, f);
                },
                (_, None) => {
                    assert(waits_for_message(a, flow.id));
                    if !s.alive(target) {
                        let f = flow.received_at(dest_reg, super::model::gone_notice(target));
                        last_ready_is_accounted_for(
                            free.with_mailbox(
                                flow.id,
                                m.parked_with(flow, filter).unparked(),
                            ),
                            Lane::Global,
                            f,
                        );
                    } else {
                        assert(waits_for_message(b, flow.id));
                    }
                },
            }
        },
    }
}

proof fn waiting_is_accounted_for(
    s: SharedView,
    flow: FlowView,
    target: FlowId,
    v: Value,
    pending: PendingSend,
)
    requires
        s.directory.dom().finite(),
    ensures
        accounted_for(parked_for_room(s, flow, target, v, pending), flow.id),
{
    let f = FlowView { pending_send: Some(pending), ..flow };
    failed_is_accounted_for(
        SharedView { waiting_send: s.waiting_send.insert(f.id.0, target.0).remove(f.id.0), ..s },
        f,
        "send target gone"@,
    );
    match s.mailbox_of(target) {
        None => {},
        Some(m) => {
            if !m.closed {
                let t = parked_for_room(s, flow, target, v, pending);
                assert(t.directory[target.0].waiting[m.waiting.len() as int].0.id == flow.id);
                assert(waits_for_room(t, flow.id));
            }
        },
    }
}

/// The flow goes on, or is accounted for.
pub open spec fn settled(r: (SharedView, Option<FlowView>), id: FlowId) -> bool {
    match r.1 {
        Some(f) => f.id == id,
        None => accounted_for(r.0, id),
    }
}

proof fn sender_is_settled(s: SharedView, ids: IdsView, f: FlowView, target_cap: u64, message: Value)
    requires
        s.directory.dom().finite(),
    ensures
        settled(after_send(s, ids, f, target_cap, message), f.id),
{
    match message.spec_as_message() {
        None => failed_is_accounted_for(
            s,
            f,
            "Send invariant broken: hop is not Value::Message"@,
        ),
        Some(m) => match cap_target_for(s, target_cap, CapRights::send()) {
            Err(e) => failed_is_accounted_for(s, f, e),
            Ok(target) => {
                let (t, hop) = stamped(s, ids, f.id, m);
                let v = Value::Message(hop);
                delivering_adds_none(sent_counted(t), Lane::Local, target, v);
                waiting_is_accounted_for(
                    delivered(sent_counted(t), Lane::Local, target, v).0,
                    f.counted_sent(),
                    target,
                    v,
                    PendingSend::FireAndForget,
                );
            },
        },
    }
}

proof fn receiver_is_settled(
    s: SharedView,
    now: u64,
    f: FlowView,
    dest_reg: u8,
    timeout: Option<u64>,
    match_tag: Option<u16>,
)
    requires
        s.directory.dom().finite(),
    ensures
        settled(after_receive(s, now, f, dest_reg, timeout, match_tag), f.id),
{
    let g = FlowView { last_receive_dest: Some(dest_reg), ..f };
    let filter = match match_tag {
        None => WaitFilter::Any,
        Some(tag) => WaitFilter::Tag(tag),
    };
    failed_is_accounted_for(s, g, "mailbox gone"@);
    parked_is_accounted_for(s, now, g, dest_reg, timeout, filter, g.id);
}

proof fn asker_is_settled(
    s: SharedView,
    ids: IdsView,
    now: u64,
    f: FlowView,
    dest_reg: u8,
    target_cap: u64,
    request: Value,
    timeout: Option<u64>,
)
    requires
        s.directory.dom().finite(),
    ensures
        settled(after_ask(s, ids, now, f, dest_reg, target_cap, request, timeout), f.id),
{
    match request.spec_as_message() {
        None => failed_is_accounted_for(
            s,
            f,
            "Ask invariant broken: request is not Value::Message"@,
        ),
        Some(m) => match cap_target_for(s, target_cap, CapRights::ask()) {
            Err(e) => failed_is_accounted_for(s, f, e),
            Ok(target) => {
                let (t, hop) = stamped(s, ids, f.id, m);
                let g = FlowView { last_receive_dest: Some(dest_reg), ..f }.counted_sent();
                let v = Value::Message(hop);
                let filter = WaitFilter::Correlation {
                    expect_request_id: hop.request_id,
                    expect_sender: Some(target.0),
                };
                delivering_adds_none(sent_counted(t), Lane::Local, target, v);
                let u = delivered(sent_counted(t), Lane::Local, target, v).0;
                waiting_is_accounted_for(
                    u,
                    g,
                    target,
                    v,
                    PendingSend::Ask {
                        dest_reg,
                        expect_request_id: hop.request_id,
                        expect_sender: target.0,
                        timeout,
                    },
                );
                failed_is_accounted_for(u, g, "mailbox gone"@);
                parked_is_accounted_for(u, now, g, dest_reg, timeout, filter, target);
            },
        },
    }
}

proof fn parent_is_settled(
    s: SharedView,
    ids: IdsView,
    f: FlowView,
    function: u32,
    args: Seq<Value>,
    dest_reg: u8,
    requested: CapRights,
)
    requires
        s.directory.dom().finite(),
    ensures
        settled(after_spawn(s, ids, f, function, args, dest_reg, requested), f.id),
{
    let (u, outcome) = spawned(
        s,
        ids,
        f.vm.chunk,
        f.vm.natives,
        child_gate(f.vm, requested),
        function,
        args,
        f.restart_policy,
        None,
    );
    match outcome {
        Ok(_) => {},
        Err(e) => failed_is_accounted_for(u, f, e.spec_text()),
    }
}

proof fn relation_is_settled(s: SharedView, ids: IdsView, f: FlowView, r: VmResultView)
    requires
        s.directory.dom().finite(),
    ensures
        match r {
            VmResultView::Monitor { dest_reg, target_cap } => settled(
                after_monitor(s, f, dest_reg, target_cap),
                f.id,
            ),
            VmResultView::Demonitor { monitor_reg } => settled(
                after_demonitor(s, f, monitor_reg),
                f.id,
            ),
            VmResultView::Link { dest_reg, target_cap } => settled(
                after_link(s, f, dest_reg, target_cap),
                f.id,
            ),
            VmResultView::Unlink { link_reg } => settled(after_unlink(s, f, link_reg), f.id),
            VmResultView::Delegate { dest_reg, src_cap, want_rights, want_native_cap } => settled(
                after_delegate(s, ids, f, dest_reg, src_cap, want_rights, want_native_cap),
                f.id,
            ),
            _ => true,
        },
{
    assert forall|text: Seq<char>| accounted_for(#[trigger] failed(s, f, text), f.id) by {
        failed_is_accounted_for(s, f, text);
    }
}

/// Whatever a flow stops for, it goes on at once, or it can run, sleeps,
/// waits for a message or for room, or has ended: no flow gets lost.
pub proof fn no_flow_is_lost(s: SharedView, ids: IdsView, now: u64, flow: FlowView, r: VmResultView)
    requires
        s.directory.dom().finite(),
    ensures
        settled(applied(s, ids, now, flow, r), flow.id),
{
    let f = FlowView {
        metrics: FlowMetrics { instructions: flow.vm.executed, ..flow.metrics },
        ..flow
    };
    match r {
        VmResultView::Complete(v) => {
            finished_flow_is_gone(s, f, OutcomeView::Completed(v), FlowExitReason::Normal);
            assert(announces(applied(s, ids, now, flow, r).0, f.id, OutcomeView::Completed(v)));
        },
        VmResultView::Trap(fault) => failed_is_accounted_for(s, f, fault.spec_text()),
        VmResultView::Yield => {
            assert(applied(s, ids, now, flow, r).0.ready[s.ready.len() as int].1.id == flow.id);
        },
        VmResultView::Sleep(delay) => {
            let t = applied(s, ids, now, flow, r).0;
            let n = slot(s.timer.entries, due_at(now, delay), s.timer.entries.len());
            slot_bounds(s.timer.entries, due_at(now, delay), s.timer.entries.len());
            assert(t.timer.entries[n as int].payload == PayloadView::WakeSleeper(f));
            assert(asleep(t, flow.id));
        },
        VmResultView::SelfPid { dest_reg } => {},
        VmResultView::Spawn { function, args, dest_reg, requested_rights } => parent_is_settled(
            s,
            ids,
            f,
            function,
            args,
            dest_reg,
            requested_rights,
        ),
        VmResultView::Send { target_cap, message } => sender_is_settled(s, ids, f, target_cap, message),
        VmResultView::Receive { dest_reg, timeout, match_tag } => receiver_is_settled(
            s,
            now,
            f,
            dest_reg,
            timeout,
            match_tag,
        ),
        VmResultView::Ask { dest_reg, target_cap, request, timeout } => asker_is_settled(
            s,
            ids,
            now,
            f,
            dest_reg,
            target_cap,
            request,
            timeout,
        ),
        VmResultView::Native { native, args, dest_reg } => failed_is_accounted_for(
            s,
            f,
            "host request without an answer"@,
        ),
        VmResultView::Float { op, lhs, rhs, dest_reg } => failed_is_accounted_for(
            s,
            f,
            "host request without an answer"@,
        ),
        _ => relation_is_settled(s, ids, f, r),
    }
}

} // verus!
