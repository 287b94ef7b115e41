//! The tables of the scheduler stay in order.

use vstd::prelude::*;

use super::capability::CapRights;
use super::endings::{collecting_touches, extracting_touches, waking_touches};
use super::mailbox::WaitFilter;
use super::model::{
    after_ask, after_receive, after_send, all_finalized, applied, applied_ids, begun,
    cap_target_for, child_gate, delivered, down_delivered, downs_delivered, extracted, failed,
    finalizing_shrinks, fired, forgotten, kill_requested, links_cut, mailbox_closed, monitors_told,
    one_finalized, orphans_released, parked_for_reply, parked_for_room, parked_on_mailbox,
    room_given, sent_counted, spawned, spawned_ids, stamped, unmarked, Lane, PendingView,
    SharedView,
};
use super::monitor::{DownEvent, FlowExitReason};
use super::process::{
    FlowId, FlowMetrics, FlowView, IdsView, OutcomeView, PendingSend, RestartPolicy,
};
use super::runtime::host_sent;
use super::timer::{scheduling_keeps_order, PayloadView, TimerEntryView, TimerView};
use super::waits::{attaching_keeps_agreement, detaching_keeps_agreement, releasing_is_exact};
use crate::bytecode::chunk::Chunk;
use crate::bytecode::value::{Message, Value};
use crate::vm::native::NativeFn;
use crate::vm::result::VmResultView;

verus! {

/// The tables agree with each other, deadlines are in order, and every flow and
/// every capability has a number that was handed out.
pub open spec fn orderly(s: SharedView, ids: IdsView) -> bool {
    &&& s.directory.dom().finite()
    &&& forall|x: u64| #[trigger] s.directory.dom().contains(x) ==> 0 < x < ids.flow
    &&& s.caps.handed_out(ids.cap)
    &&& s.asks.consistent()
    &&& s.timer.in_order()
    &&& ids.flow > 0
    &&& ids.cap > 0
}

/// From `s` to `t` no flow and no capability was added, and what was in order
/// is in order.
pub open spec fn kept(s: SharedView, t: SharedView) -> bool {
    &&& s.directory.dom().finite() ==> t.directory.dom().finite()
    &&& forall|x: u64| #[trigger]
        t.directory.dom().contains(x) ==> s.directory.dom().contains(x)
    &&& forall|c: u64| #[trigger]
        t.caps.entries.dom().contains(c) ==> s.caps.entries.dom().contains(c)
    &&& s.asks.consistent() ==> t.asks.consistent()
    &&& s.timer.in_order() ==> t.timer.in_order()
}

proof fn kept_is_orderly(s: SharedView, t: SharedView, ids: IdsView)
    requires
        orderly(s, ids),
        kept(s, t),
    ensures
        orderly(t, ids),
{
}

proof fn kept_twice(s: SharedView, t: SharedView, u: SharedView)
    requires
        kept(s, t),
        kept(t, u),
    ensures
        kept(s, u),
{
}

proof fn same_tables(s: SharedView, t: SharedView)
    requires
        t.directory.dom() =~= s.directory.dom(),
        t.caps == s.caps,
        t.asks == s.asks,
        t.timer == s.timer,
    ensures
        kept(s, t),
{
}

proof fn detaching_is_kept(s: SharedView, t: SharedView, asker: u64)
    requires
        t.directory.dom() =~= s.directory.dom(),
        t.caps == s.caps,
        t.asks == s.asks.detached(asker),
        t.timer == s.timer,
    ensures
        kept(s, t),
{
    if s.asks.consistent() {
        detaching_keeps_agreement(s.asks, asker);
    }
}

// ---- the end of a flow --------------------------------------------------

proof fn downs_are_kept(s: SharedView, events: Seq<DownEvent>, n: nat)
    ensures
        kept(s, downs_delivered(s, events, n)),
    decreases n,
{
    if n > 0 {
        downs_are_kept(s, events, (n - 1) as nat);
        let u = downs_delivered(s, events, (n - 1) as nat);
        let t = down_delivered(u, events[n - 1]);
        assert(t.directory.dom() =~= u.directory.dom());
        if t.asks == u.asks {
            same_tables(u, t);
        } else {
            let f = u.directory[events[n - 1].owner.0].parked.unwrap();
            detaching_is_kept(u, t, f.id.0);
        }
        kept_twice(s, u, t);
    }
}

/// The end of one flow adds nothing.
pub proof fn ending_is_kept(s: SharedView, p: PendingView)
    requires
        s.directory.dom().finite(),
    ensures
        kept(s, one_finalized(s, p).0),
{
    let id = p.flow.id;
    finalizing_shrinks(s, p);
    let u = unmarked(s, id);
    detaching_is_kept(s, u, id.0);
    let closed = mailbox_closed(u, id).0;
    same_tables(u, closed);
    let askers = closed.asks.waiters(id.0);
    let hop = Value::Message(Message::linked_exit_spec(id.0, p.reason.code()));
    let free = SharedView { asks: closed.asks.released(id.0), ..closed };
    if closed.asks.consistent() {
        releasing_is_exact(closed.asks, id.0, id.0);
    }
    waking_touches(free, askers, hop, askers.len());
    let released = orphans_released(closed, id, p.reason);
    assert(kept(closed, released));
    let gone = forgotten(released, id);
    assert(kept(released, gone));
    let events = gone.monitors.downs(id, p.reason);
    let quiet = SharedView { monitors: gone.monitors.without_target(id), ..gone };
    same_tables(gone, quiet);
    downs_are_kept(quiet, events, events.len());
    let told = monitors_told(gone, id, p.reason);
    let peers = told.links.peers(id);
    let cut = SharedView { links: told.links.without(id), ..told };
    collecting_touches(cut, peers, peers.len());
    let t = links_cut(told, id, p.reason).0;
    same_tables(told, t);
    same_tables(t, one_finalized(s, p).0);
}

proof fn endings_are_kept(s: SharedView, work: Seq<PendingView>)
    requires
        s.directory.dom().finite(),
    ensures
        kept(s, all_finalized(s, work)),
    decreases s.directory.dom().len(), s.links.entries.len(), work.len(),
{
    if work.len() > 0 {
        let p = work.last();
        let (u, more) = one_finalized(s, p);
        finalizing_shrinks(s, p);
        ending_is_kept(s, p);
        endings_are_kept(u, work.drop_last() + more);
        kept_twice(s, u, all_finalized(s, work));
    }
}

proof fn failing_is_kept(s: SharedView, flow: FlowView, text: Seq<char>)
    requires
        s.directory.dom().finite(),
    ensures
        kept(s, failed(s, flow, text)),
{
    endings_are_kept(
        s,
        seq![
            PendingView { flow, outcome: OutcomeView::Failed(text), reason: FlowExitReason::Fault },
        ],
    );
}

// ---- messages -----------------------------------------------------------

proof fn delivering_is_kept(s: SharedView, lane: Lane, target: FlowId, v: Value)
    ensures
        kept(s, delivered(s, lane, target, v).0),
{
    let t = delivered(s, lane, target, v).0;
    assert(t.directory.dom() =~= s.directory.dom());
    if s.alive(target) && s.directory[target.0].wants(v) {
        detaching_is_kept(s, t, s.directory[target.0].parked.unwrap().id.0);
    } else {
        same_tables(s, t);
    }
}

proof fn scheduling_is_kept(s: SharedView, e: TimerEntryView)
    ensures
        kept(s, SharedView { timer: s.timer.scheduled(e), ..s }),
{
    if s.timer.in_order() {
        scheduling_keeps_order(s.timer, e);
    }
}

proof fn parking_is_kept(
    s: SharedView,
    now: u64,
    flow: FlowView,
    dest_reg: u8,
    timeout: Option<u64>,
    filter: WaitFilter,
    target: FlowId,
)
    requires
        s.directory.dom().finite(),
    ensures
        kept(s, parked_on_mailbox(s, now, flow, dest_reg, timeout, filter)),
        kept(s, parked_for_reply(s, now, flow, dest_reg, timeout, filter, target)),
{
    let asking = SharedView { asks: s.asks.attached(flow.id.0, target.0), ..s };
    let free = SharedView { asks: asking.asks.detached(flow.id.0), ..s };
    if s.asks.consistent() {
        attaching_keeps_agreement(s.asks, flow.id.0, target.0);
        detaching_keeps_agreement(asking.asks, flow.id.0);
    }
    assert(kept(s, asking));
    assert(kept(s, free));
    failing_is_kept(s, flow, "mailbox gone"@);
    failing_is_kept(free, flow, "mailbox gone"@);
    assert forall|t: TimerView, e: TimerEntryView|
        t.in_order() implies (#[trigger] t.scheduled(e)).in_order() by {
        scheduling_keeps_order(t, e);
    }
    if s.alive(flow.id) {
        let a = parked_on_mailbox(s, now, flow, dest_reg, timeout, filter);
        let b = parked_for_reply(s, now, flow, dest_reg, timeout, filter, target);
        assert(a.directory.dom() =~= s.directory.dom());
        assert(b.directory.dom() =~= s.directory.dom());
    }
}

proof fn waiting_is_kept(
    s: SharedView,
    flow: FlowView,
    target: FlowId,
    v: Value,
    pending: PendingSend,
)
    requires
        s.directory.dom().finite(),
    ensures
        kept(s, parked_for_room(s, flow, target, v, pending)),
{
    let f = FlowView { pending_send: Some(pending), ..flow };
    let t = SharedView {
        waiting_send: s.waiting_send.insert(f.id.0, target.0).remove(f.id.0),
        ..s
    };
    failing_is_kept(t, f, "send target gone"@);
    if s.alive(target) && !s.directory[target.0].closed {
        same_tables(s, parked_for_room(s, flow, target, v, pending));
    }
}

proof fn admitting_is_kept(s: SharedView, now: u64, lane: Lane, owner: FlowId)
    requires
        s.directory.dom().finite(),
    ensures
        kept(s, room_given(s, now, lane, owner)),
{
    if s.alive(owner) {
        let (after, sender) = s.directory[owner.0].admitted();
        match sender {
            None => same_tables(s, room_given(s, now, lane, owner)),
            Some(sender) => {
                let t = SharedView {
                    waiting_send: s.waiting_send.remove(sender.id.0),
                    ..s.with_mailbox(owner, after)
                };
                same_tables(s, t);
                let f = FlowView { pending_send: None, ..sender };
                match sender.pending_send {
                    Some(
                        PendingSend::Ask { dest_reg, expect_request_id, expect_sender, timeout },
                    ) => {
                        parking_is_kept(
                            t,
                            now,
                            f,
                            dest_reg,
                            timeout,
                            WaitFilter::Correlation {
                                expect_request_id,
                                expect_sender: Some(expect_sender),
                            },
                            FlowId(expect_sender),
                        );
                    },
                    _ => same_tables(t, room_given(s, now, lane, owner)),
                }
            },
        }
    }
}

proof fn receiving_is_kept(
    s: SharedView,
    now: u64,
    flow: FlowView,
    dest_reg: u8,
    timeout: Option<u64>,
    match_tag: Option<u16>,
)
    requires
        s.directory.dom().finite(),
    ensures
        kept(s, after_receive(s, now, flow, dest_reg, timeout, match_tag).0),
{
    let f = FlowView { last_receive_dest: Some(dest_reg), ..flow };
    let filter = match match_tag {
        None => WaitFilter::Any,
        Some(tag) => WaitFilter::Tag(tag),
    };
    failing_is_kept(s, f, "mailbox gone"@);
    parking_is_kept(s, now, f, dest_reg, timeout, filter, f.id);
    if s.alive(f.id) {
        let t = s.with_mailbox(f.id, s.directory[f.id.0].popped(filter).0);
        same_tables(s, t);
        admitting_is_kept(t, now, Lane::Local, f.id);
    }
}

/// A capability with the next handle.
pub proof fn minting_is_orderly(s: SharedView, ids: IdsView, target: FlowId, rights: CapRights)
    requires
        orderly(s, ids),
        ids.cap < u64::MAX,
    ensures
        orderly(SharedView { caps: s.caps.minted(ids.cap, target, rights), ..s }, ids.cap_drawn()),
{
}

proof fn sending_is_orderly(
    s: SharedView,
    ids: IdsView,
    flow: FlowView,
    target_cap: u64,
    message: Value,
)
    requires
        orderly(s, ids),
        ids.cap < u64::MAX,
    ensures
        orderly(
            after_send(s, ids, flow, target_cap, message).0,
            super::model::after_hop_ids(s, ids, target_cap, message, CapRights::send()),
        ),
{
    match message.spec_as_message() {
        None => failing_is_kept(
            s,
            flow,
            "Send invariant broken: hop is not Value::Message"@,
        ),
        Some(m) => match cap_target_for(s, target_cap, CapRights::send()) {
            Err(e) => failing_is_kept(s, flow, e),
            Ok(target) => {
                let (t, hop) = stamped(s, ids, flow.id, m);
                let v = Value::Message(hop);
                minting_is_orderly(s, ids, flow.id, CapRights::send());
                same_tables(t, sent_counted(t));
                delivering_is_kept(sent_counted(t), Lane::Local, target, v);
                let u = delivered(sent_counted(t), Lane::Local, target, v).0;
                kept_is_orderly(t, sent_counted(t), ids.cap_drawn());
                kept_is_orderly(sent_counted(t), u, ids.cap_drawn());
                waiting_is_kept(u, flow.counted_sent(), target, v, PendingSend::FireAndForget);
            },
        },
    }
}

proof fn asking_is_orderly(
    s: SharedView,
    ids: IdsView,
    now: u64,
    flow: FlowView,
    dest_reg: u8,
    target_cap: u64,
    request: Value,
    timeout: Option<u64>,
)
    requires
        orderly(s, ids),
        ids.cap < u64::MAX,
    ensures
        orderly(
            after_ask(s, ids, now, flow, dest_reg, target_cap, request, timeout).0,
            super::model::after_hop_ids(s, ids, target_cap, request, CapRights::ask()),
        ),
{
    match request.spec_as_message() {
        None => failing_is_kept(
            s,
            flow,
            "Ask invariant broken: request is not Value::Message"@,
        ),
        Some(m) => match cap_target_for(s, target_cap, CapRights::ask()) {
            Err(e) => failing_is_kept(s, flow, e),
            Ok(target) => {
                let (t, hop) = stamped(s, ids, flow.id, m);
                let f = FlowView { last_receive_dest: Some(dest_reg), ..flow }.counted_sent();
                let v = Value::Message(hop);
                let filter = WaitFilter::Correlation {
                    expect_request_id: hop.request_id,
                    expect_sender: Some(target.0),
                };
                minting_is_orderly(s, ids, flow.id, CapRights::send());
                same_tables(t, sent_counted(t));
                delivering_is_kept(sent_counted(t), Lane::Local, target, v);
                let u = delivered(sent_counted(t), Lane::Local, target, v).0;
                kept_is_orderly(t, sent_counted(t), ids.cap_drawn());
                kept_is_orderly(sent_counted(t), u, ids.cap_drawn());
                waiting_is_kept(
                    u,
                    f,
                    target,
                    v,
                    PendingSend::Ask {
                        dest_reg,
                        expect_request_id: hop.request_id,
                        expect_sender: target.0,
                        timeout,
                    },
                );
                failing_is_kept(u, f, "mailbox gone"@);
                parking_is_kept(u, now, f, dest_reg, timeout, filter, target);
                if u.alive(f.id) {
                    same_tables(u, u.with_mailbox(f.id, u.directory[f.id.0].popped(filter).0));
                }
            },
        },
    }
}

// ---- the tables, step by step -------------------------------------------

/// Starting a flow keeps the tables in order.
pub proof fn spawning_keeps_order(
    s: SharedView,
    ids: IdsView,
    chunk: Chunk,
    natives: Seq<Option<(Seq<char>, NativeFn)>>,
    gate: Seq<bool>,
    function: u32,
    args: Seq<Value>,
    restart_policy: RestartPolicy,
    supervisor: Option<u64>,
)
    requires
        orderly(s, ids),
        ids.left(),
    ensures
        orderly(
            spawned(s, ids, chunk, natives, gate, function, args, restart_policy, supervisor).0,
            spawned_ids(s, ids),
        ),
{
}

/// Killing a flow keeps the tables in order.
pub proof fn killing_keeps_order(s: SharedView, ids: IdsView, id: FlowId, reason: FlowExitReason)
    requires
        orderly(s, ids),
    ensures
        orderly(kill_requested(s, id, reason), ids),
{
    extracting_touches(s, id, reason);
    let (t, taken) = extracted(s, id, reason);
    same_tables(s, t);
    match taken {
        Some(flow) => endings_are_kept(
            t,
            seq![
                PendingView {
                    flow,
                    outcome: OutcomeView::Failed("killed ("@ + reason.spec_text()@ + ")"@),
                    reason,
                },
            ],
        ),
        None => {},
    }
}

/// Giving a flow a worker keeps the tables in order.
pub proof fn beginning_keeps_order(s: SharedView, ids: IdsView, flow: FlowView)
    requires
        orderly(s, ids),
    ensures
        orderly(begun(s, flow).0, ids),
{
    let f = match flow.pending_message {
        Some(v) => FlowView { pending_message: None, ..flow }.received(v),
        None => flow,
    };
    let t = SharedView { kills: s.kills.remove(f.id.0), ..s };
    same_tables(s, t);
    match super::waits::found(s.kills, f.id.0) {
        None => {},
        Some(reason) => endings_are_kept(
            t,
            seq![
                PendingView {
                    flow: f,
                    outcome: OutcomeView::Failed("linked exit ("@ + reason.spec_text()@ + ")"@),
                    reason,
                },
            ],
        ),
    }
}

/// Doing what is due first keeps the tables in order.
pub proof fn firing_keeps_order(s: SharedView, ids: IdsView)
    requires
        orderly(s, ids),
        s.timer.entries.len() > 0,
    ensures
        orderly(
            fired(
                SharedView {
                    timer: TimerView { entries: s.timer.entries.skip(1), ..s.timer },
                    ..s
                },
                s.timer.entries[0],
            ),
            ids,
        ),
{
    let rest = TimerView { entries: s.timer.entries.skip(1), ..s.timer };
    assert(rest.in_order()) by {
        assert forall|i: int, j: int| 0 <= i <= j < rest.entries.len() implies (
        #[trigger] rest.entries[i]).deadline <= (#[trigger] rest.entries[j]).deadline by {
            assert(s.timer.entries[i + 1].deadline <= s.timer.entries[j + 1].deadline);
        }
    }
    let t = SharedView { timer: rest, ..s };
    let e = s.timer.entries[0];
    let u = fired(t, e);
    assert(u.directory.dom() =~= t.directory.dom());
    if u.asks == t.asks {
        same_tables(t, u);
    } else {
        match e.payload {
            PayloadView::WakeReceiver { pid, dest_reg, epoch } => {
                detaching_is_kept(t, u, t.directory[pid.0].parked.unwrap().id.0);
            },
            _ => {},
        }
    }
}

/// A message of the host keeps the tables in order.
pub proof fn host_messages_keep_order(s: SharedView, ids: IdsView, target: FlowId, message: Value)
    requires
        orderly(s, ids),
    ensures
        orderly(host_sent(s, target, message).0, ids),
{
    let t = host_sent(s, target, message).0;
    assert(t.directory.dom() =~= s.directory.dom());
    if t.asks == s.asks {
        same_tables(s, t);
    } else {
        detaching_is_kept(s, t, s.directory[target.0].parked.unwrap().id.0);
    }
}

/// Answering what a flow stopped for keeps the tables in order.
pub proof fn applying_keeps_order(
    s: SharedView,
    ids: IdsView,
    now: u64,
    flow: FlowView,
    r: VmResultView,
)
    requires
        orderly(s, ids),
        ids.left(),
    ensures
        orderly(applied(s, ids, now, flow, r).0, applied_ids(s, ids, flow, r)),
        ids.before(applied_ids(s, ids, flow, r)),
{
    let f = FlowView {
        metrics: FlowMetrics { instructions: flow.vm.executed, ..flow.metrics },
        ..flow
    };
    let t = applied(s, ids, now, flow, r).0;
    assert forall|text: Seq<char>| kept(s, #[trigger] failed(s, f, text)) by {
        failing_is_kept(s, f, text);
    }
    match r {
        VmResultView::Complete(v) => endings_are_kept(
            s,
            seq![
                PendingView {
                    flow: f,
                    outcome: OutcomeView::Completed(v),
                    reason: FlowExitReason::Normal,
                },
            ],
        ),
        VmResultView::Sleep(delay) => scheduling_is_kept(
            s,
            TimerEntryView {
                deadline: super::timer::due_at(now, delay),
                payload: PayloadView::WakeSleeper(f),
            },
        ),
        VmResultView::SelfPid { dest_reg } => minting_is_orderly(
            s,
            ids,
            f.id,
            CapRights::send_ask(),
        ),
        VmResultView::Spawn { function, args, dest_reg, requested_rights } => {
            let gate = child_gate(f.vm, requested_rights);
            spawning_keeps_order(
                s,
                ids,
                f.vm.chunk,
                f.vm.natives,
                gate,
                function,
                args,
                f.restart_policy,
                None,
            );
            let (u, outcome) = spawned(
                s,
                ids,
                f.vm.chunk,
                f.vm.natives,
                gate,
                function,
                args,
                f.restart_policy,
                None,
            );
            match outcome {
                Ok(child) => minting_is_orderly(
                    u,
                    spawned_ids(s, ids),
                    child,
                    CapRights::send_ask(),
                ),
                Err(e) => failing_is_kept(u, f, e.spec_text()),
            }
        },
        VmResultView::Send { target_cap, message } => sending_is_orderly(
            s,
            ids,
            f,
            target_cap,
            message,
        ),
        VmResultView::Receive { dest_reg, timeout, match_tag } => receiving_is_kept(
            s,
            now,
            f,
            dest_reg,
            timeout,
            match_tag,
        ),
        VmResultView::Ask { dest_reg, target_cap, request, timeout } => asking_is_orderly(
            s,
            ids,
            now,
            f,
            dest_reg,
            target_cap,
            request,
            timeout,
        ),
        VmResultView::Delegate { dest_reg, src_cap, want_rights, want_native_cap } => {
            match super::model::delegated(
                s.caps.resolved(src_cap),
                want_rights,
                want_native_cap is Some,
            ) {
                Ok(entry) => minting_is_orderly(s, ids, entry.flow, entry.rights),
                Err(_) => {},
            }
        },
        _ => {},
    }
}

} // verus!
