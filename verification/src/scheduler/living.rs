//! The tables speak of live flows only.

use vstd::prelude::*;

use super::capability::CapRights;
use super::endings::{
    collecting_touches, downs_touch, ended_flow_is_forgotten, extracting_touches,
    filter_keeps_only, waking_touches,
};
use super::link::{LinkEntry, LinkId};
use super::mailbox::WaitFilter;
use super::model::{
    after_ask, after_receive, after_send, after_spawn, all_finalized, applied, begun, cap_target,
    cap_target_for, child_gate, delegated, delivered, extracted, failed, finalizing_shrinks, fired,
    forgotten, kill_requested, links_cut, mailbox_closed, monitors_told, one_finalized,
    orphans_released, parked_for_reply, parked_for_room, parked_on_mailbox, reference_in,
    room_given, sent_counted, spawned, stamped, unmarked, Lane, PendingView, SharedView,
};
use super::monitor::{FlowExitReason, MonitorEntry, MonitorRef};
use super::process::{
    FlowId, FlowMetrics, FlowView, IdsView, OutcomeView, PendingSend, RestartPolicy,
};
use super::registry::NameView;
use super::runtime::host_sent;
use super::timer::TimerEntryView;
use super::waits::found;
use crate::bytecode::chunk::Chunk;
use crate::bytecode::value::{Message, Value};
use crate::vm::native::NativeFn;
use crate::vm::result::VmResultView;

verus! {

/// Every capability reaches a live flow.
pub open spec fn caps_live(s: SharedView) -> bool {
    forall|c: u64| #[trigger]
        s.caps.entries.dom().contains(c) ==> s.alive(s.caps.entries[c].flow)
}

/// Every name stands for a live flow, and its capability reaches that flow.
pub open spec fn names_live(s: SharedView) -> bool {
    forall|i: int|
        0 <= i < s.registry.len() ==> s.alive((#[trigger] s.registry[i]).flow) && (
        s.caps.resolved(s.registry[i].cap.0) matches Some(e) && e.flow == s.registry[i].flow)
}

/// Every monitor has a live owner and a live target.
pub open spec fn monitors_live(s: SharedView) -> bool {
    forall|i: int|
        0 <= i < s.monitors.entries.len() ==> s.alive((#[trigger] s.monitors.entries[i]).owner)
            && s.alive(s.monitors.entries[i].target)
}

/// Every link has two live ends.
pub open spec fn links_live(s: SharedView) -> bool {
    forall|i: int|
        0 <= i < s.links.entries.len() ==> s.alive((#[trigger] s.links.entries[i]).a) && s.alive(
            s.links.entries[i].b,
        )
}

/// Only live flows are marked to be killed.
pub open spec fn marks_live(s: SharedView) -> bool {
    forall|x: u64| #[trigger] s.kills.dom().contains(x) ==> s.alive(FlowId(x))
}

/// No table speaks of a flow that is not alive.
pub open spec fn living(s: SharedView) -> bool {
    &&& caps_live(s)
    &&& names_live(s)
    &&& monitors_live(s)
    &&& links_live(s)
    &&& marks_live(s)
}

/// The tables that speak of flows are the same, and no flow ended.
spec fn same_speech(s: SharedView, t: SharedView) -> bool {
    &&& t.caps == s.caps
    &&& t.registry == s.registry
    &&& t.monitors == s.monitors
    &&& t.links == s.links
    &&& t.kills == s.kills
    &&& forall|x: u64| #[trigger] s.directory.dom().contains(x) ==> t.directory.dom().contains(x)
}

proof fn same_speech_is_living(s: SharedView, t: SharedView)
    requires
        living(s),
        same_speech(s, t),
    ensures
        living(t),
{
}

// ---- the end of a flow --------------------------------------------------

/// What the tables of `t` say, those of `s` said; marks may be added to flows
/// that are alive.
spec fn inherits(s: SharedView, t: SharedView) -> bool {
    &&& forall|c: u64| #[trigger]
        t.caps.entries.dom().contains(c) ==> s.caps.entries.dom().contains(c)
            && t.caps.entries[c] == s.caps.entries[c]
    &&& forall|i: int|
        0 <= i < t.registry.len() ==> s.registry.contains(#[trigger] t.registry[i])
    &&& forall|i: int|
        0 <= i < t.monitors.entries.len() ==> s.monitors.entries.contains(
            #[trigger] t.monitors.entries[i],
        )
    &&& forall|i: int|
        0 <= i < t.links.entries.len() ==> s.links.entries.contains(#[trigger] t.links.entries[i])
    &&& forall|x: u64| #[trigger]
        t.kills.dom().contains(x) ==> s.kills.dom().contains(x) || s.directory.dom().contains(x)
}

proof fn ending_inherits(s: SharedView, p: PendingView)
    ensures
        inherits(s, one_finalized(s, p).0),
        forall|c: u64| #[trigger]
            s.caps.entries.dom().contains(c) && s.caps.entries[c].flow != p.flow.id
                ==> one_finalized(s, p).0.caps.entries.dom().contains(c),
{
    let id = p.flow.id;
    let u = unmarked(s, id);
    let closed = mailbox_closed(u, id).0;
    assert(closed.directory.dom() =~= s.directory.dom());
    let askers = closed.asks.waiters(id.0);
    let hop = Value::Message(Message::linked_exit_spec(id.0, p.reason.code()));
    let base = SharedView { asks: closed.asks.released(id.0), ..closed };
    waking_touches(base, askers, hop, askers.len());
    let released = orphans_released(closed, id, p.reason);
    let gone = forgotten(released, id);
    filter_keeps_only(released.registry, |e: NameView| e.flow != id);
    filter_keeps_only(released.monitors.entries, |e: MonitorEntry| e.owner != id);
    let without_owner = gone.monitors.entries;
    let quiet = SharedView { monitors: gone.monitors.without_target(id), ..gone };
    filter_keeps_only(without_owner, |e: MonitorEntry| e.target != id);
    assert forall|i: int| 0 <= i < quiet.monitors.entries.len() implies s.monitors.entries.contains(
        #[trigger] quiet.monitors.entries[i],
    ) by {
        let e = quiet.monitors.entries[i];
        assert(without_owner.contains(e));
        let j = choose|j: int| 0 <= j < without_owner.len() && without_owner[j] == e;
        assert(released.monitors.entries.contains(without_owner[j]));
    }
    let events = gone.monitors.downs(id, p.reason);
    downs_touch(quiet, events, events.len());
    let told = monitors_told(gone, id, p.reason);
    let peers = told.links.peers(id);
    let cut = SharedView { links: told.links.without(id), ..told };
    filter_keeps_only(told.links.entries, |e: LinkEntry| !e.joins(id));
    collecting_touches(cut, peers, peers.len());
    let t = links_cut(told, id, p.reason).0;
    assert(t.caps == gone.caps);
}

proof fn ending_is_living(s: SharedView, p: PendingView)
    requires
        s.directory.dom().finite(),
        living(s),
    ensures
        living(one_finalized(s, p).0),
{
    let id = p.flow.id;
    let t = one_finalized(s, p).0;
    finalizing_shrinks(s, p);
    ended_flow_is_forgotten(s, p);
    ending_inherits(s, p);
    assert forall|c: u64| #[trigger] t.caps.entries.dom().contains(c) implies t.alive(
        t.caps.entries[c].flow,
    ) by {
        assert(t.caps.resolved(c) is Some);
    }
    assert forall|i: int| 0 <= i < t.registry.len() implies t.alive((#[trigger] t.registry[i]).flow)
        && (t.caps.resolved(t.registry[i].cap.0) matches Some(e) && e.flow
        == t.registry[i].flow) by {
        let j = choose|j: int| 0 <= j < s.registry.len() && s.registry[j] == t.registry[i];
        assert(s.alive(s.registry[j].flow));
        assert(s.caps.entries.dom().contains(s.registry[j].cap.0));
    }
    assert forall|i: int| 0 <= i < t.monitors.entries.len() implies t.alive(
        (#[trigger] t.monitors.entries[i]).owner,
    ) && t.alive(t.monitors.entries[i].target) by {
        let e = t.monitors.entries[i];
        let j = choose|j: int| 0 <= j < s.monitors.entries.len() && s.monitors.entries[j] == e;
        assert(s.alive(s.monitors.entries[j].owner));
    }
    assert forall|i: int| 0 <= i < t.links.entries.len() implies t.alive(
        (#[trigger] t.links.entries[i]).a,
    ) && t.alive(t.links.entries[i].b) by {
        let e = t.links.entries[i];
        let j = choose|j: int| 0 <= j < s.links.entries.len() && s.links.entries[j] == e;
        assert(s.alive(s.links.entries[j].a));
        assert(!e.joins(id));
    }
}

proof fn endings_are_living(s: SharedView, work: Seq<PendingView>)
    requires
        s.directory.dom().finite(),
        living(s),
    ensures
        living(all_finalized(s, work)),
    decreases s.directory.dom().len(), s.links.entries.len(), work.len(),
{
    if work.len() > 0 {
        let p = work.last();
        let (u, more) = one_finalized(s, p);
        finalizing_shrinks(s, p);
        ending_is_living(s, p);
        endings_are_living(u, work.drop_last() + more);
    }
}

proof fn failing_is_living(s: SharedView, flow: FlowView)
    requires
        s.directory.dom().finite(),
        living(s),
    ensures
        forall|text: Seq<char>| living(#[trigger] failed(s, flow, text)),
{
    assert forall|text: Seq<char>| living(#[trigger] failed(s, flow, text)) by {
        endings_are_living(
            s,
            seq![
                PendingView {
                    flow,
                    outcome: OutcomeView::Failed(text),
                    reason: FlowExitReason::Fault,
                },
            ],
        );
    }
}

// ---- messages -----------------------------------------------------------

proof fn delivering_is_living(s: SharedView, lane: Lane, target: FlowId, v: Value)
    requires
        living(s),
    ensures
        living(delivered(s, lane, target, v).0),
        delivered(s, lane, target, v).0.directory.dom() == s.directory.dom(),
{
    let t = delivered(s, lane, target, v).0;
    assert(t.directory.dom() =~= s.directory.dom());
    same_speech_is_living(s, t);
}

proof fn parking_is_living(
    s: SharedView,
    now: u64,
    flow: FlowView,
    dest_reg: u8,
    timeout: Option<u64>,
    filter: WaitFilter,
    target: FlowId,
)
    requires
        s.directory.dom().finite(),
        living(s),
    ensures
        living(parked_on_mailbox(s, now, flow, dest_reg, timeout, filter)),
        living(parked_for_reply(s, now, flow, dest_reg, timeout, filter, target)),
{
    let free = SharedView { asks: s.asks.attached(flow.id.0, target.0).detached(flow.id.0), ..s };
    same_speech_is_living(s, free);
    failing_is_living(s, flow);
    failing_is_living(free, flow);
    if s.alive(flow.id) {
        same_speech_is_living(s, parked_on_mailbox(s, now, flow, dest_reg, timeout, filter));
        same_speech_is_living(s, parked_for_reply(s, now, flow, dest_reg, timeout, filter, target));
    }
}

proof fn queueing_is_living(
    s: SharedView,
    flow: FlowView,
    target: FlowId,
    v: Value,
    pending: PendingSend,
)
    requires
        s.directory.dom().finite(),
        living(s),
    ensures
        living(parked_for_room(s, flow, target, v, pending)),
{
    let f = FlowView { pending_send: Some(pending), ..flow };
    let t = SharedView {
        waiting_send: s.waiting_send.insert(f.id.0, target.0).remove(f.id.0),
        ..s
    };
    same_speech_is_living(s, t);
    failing_is_living(t, f);
    if s.alive(target) && !s.directory[target.0].closed {
        same_speech_is_living(s, parked_for_room(s, flow, target, v, pending));
    }
}

proof fn admitting_is_living(s: SharedView, now: u64, lane: Lane, owner: FlowId)
    requires
        s.directory.dom().finite(),
        living(s),
    ensures
        living(room_given(s, now, lane, owner)),
{
    if s.alive(owner) {
        let (after, sender) = s.directory[owner.0].admitted();
        let t = room_given(s, now, lane, owner);
        match sender {
            None => same_speech_is_living(s, t),
            Some(sender) => {
                let u = SharedView {
                    waiting_send: s.waiting_send.remove(sender.id.0),
                    ..s.with_mailbox(owner, after)
                };
                same_speech_is_living(s, u);
                match sender.pending_send {
                    Some(
                        PendingSend::Ask { dest_reg, expect_request_id, expect_sender, timeout },
                    ) => parking_is_living(
                        u,
                        now,
                        FlowView { pending_send: None, ..sender },
                        dest_reg,
                        timeout,
                        WaitFilter::Correlation {
                            expect_request_id,
                            expect_sender: Some(expect_sender),
                        },
                        FlowId(expect_sender),
                    ),
                    _ => same_speech_is_living(u, t),
                }
            },
        }
    }
}

/// A new capability for a live flow, with a number that none has yet.
pub proof fn minting_is_living(s: SharedView, ids: IdsView, target: FlowId, rights: CapRights)
    requires
        living(s),
        s.caps.handed_out(ids.cap),
        s.alive(target),
    ensures
        living(SharedView { caps: s.caps.minted(ids.cap, target, rights), ..s }),
{
    let t = SharedView { caps: s.caps.minted(ids.cap, target, rights), ..s };
    assert forall|i: int| 0 <= i < t.registry.len() implies t.alive((#[trigger] t.registry[i]).flow)
        && (t.caps.resolved(t.registry[i].cap.0) matches Some(e) && e.flow
        == t.registry[i].flow) by {
        assert(s.alive(s.registry[i].flow));
        assert(s.caps.entries.dom().contains(s.registry[i].cap.0));
    }
}

// ---- the steps ----------------------------------------------------------

proof fn sender_is_living(
    s: SharedView,
    ids: IdsView,
    flow: FlowView,
    target_cap: u64,
    message: Value,
)
    requires
        s.directory.dom().finite(),
        living(s),
        s.caps.handed_out(ids.cap),
        s.alive(flow.id),
    ensures
        living(after_send(s, ids, flow, target_cap, message).0),
{
    failing_is_living(s, flow);
    match (message.spec_as_message(), cap_target_for(s, target_cap, CapRights::send())) {
        (Some(m), Ok(target)) => {
            let (t, hop) = stamped(s, ids, flow.id, m);
            let v = Value::Message(hop);
            minting_is_living(s, ids, flow.id, CapRights::send());
            same_speech_is_living(t, sent_counted(t));
            delivering_is_living(sent_counted(t), Lane::Local, target, v);
            let u = delivered(sent_counted(t), Lane::Local, target, v).0;
            queueing_is_living(u, flow.counted_sent(), target, v, PendingSend::FireAndForget);
        },
        _ => {},
    }
}

proof fn receiver_is_living(
    s: SharedView,
    now: u64,
    flow: FlowView,
    dest_reg: u8,
    timeout: Option<u64>,
    match_tag: Option<u16>,
)
    requires
        s.directory.dom().finite(),
        living(s),
    ensures
        living(after_receive(s, now, flow, dest_reg, timeout, match_tag).0),
{
    let f = FlowView { last_receive_dest: Some(dest_reg), ..flow };
    let filter = match match_tag {
        None => WaitFilter::Any,
        Some(tag) => WaitFilter::Tag(tag),
    };
    failing_is_living(s, f);
    parking_is_living(s, now, f, dest_reg, timeout, filter, f.id);
    if s.alive(f.id) {
        let t = s.with_mailbox(f.id, s.directory[f.id.0].popped(filter).0);
        assert(t.directory.dom() =~= s.directory.dom());
        same_speech_is_living(s, t);
        admitting_is_living(t, now, Lane::Local, f.id);
    }
}

proof fn asker_is_living(
    s: SharedView,
    ids: IdsView,
    now: u64,
    flow: FlowView,
    dest_reg: u8,
    target_cap: u64,
    request: Value,
    timeout: Option<u64>,
)
    requires
        s.directory.dom().finite(),
        living(s),
        s.caps.handed_out(ids.cap),
        s.alive(flow.id),
    ensures
        living(after_ask(s, ids, now, flow, dest_reg, target_cap, request, timeout).0),
{
    failing_is_living(s, flow);
    match (request.spec_as_message(), cap_target_for(s, target_cap, CapRights::ask())) {
        (Some(m), Ok(target)) => {
            let (t, hop) = stamped(s, ids, flow.id, m);
            let f = FlowView { last_receive_dest: Some(dest_reg), ..flow }.counted_sent();
            let v = Value::Message(hop);
            let filter = WaitFilter::Correlation {
                expect_request_id: hop.request_id,
                expect_sender: Some(target.0),
            };
            minting_is_living(s, ids, flow.id, CapRights::send());
            same_speech_is_living(t, sent_counted(t));
            delivering_is_living(sent_counted(t), Lane::Local, target, v);
            let u = delivered(sent_counted(t), Lane::Local, target, v).0;
            queueing_is_living(
                u,
                f,
                target,
                v,
                PendingSend::Ask {
                    dest_reg,
                    expect_request_id: hop.request_id,
                    expect_sender: target.0,
                    timeout,
                },
            );
            failing_is_living(u, f);
            parking_is_living(u, now, f, dest_reg, timeout, filter, target);
            if u.alive(f.id) {
                same_speech_is_living(
                    u,
                    u.with_mailbox(f.id, u.directory[f.id.0].popped(filter).0),
                );
            }
        },
        _ => {},
    }
}

/// A new flow is spoken of by no table yet.
pub proof fn spawning_is_living(
    s: SharedView,
    ids: IdsView,
    chunk: Chunk,
    natives: Seq<Option<(Seq<char>, NativeFn)>>,
    gate: Seq<bool>,
    function: u32,
    args: Seq<Value>,
    restart_policy: RestartPolicy,
    supervisor: Option<u64>,
)
    requires
        living(s),
    ensures
        living(
            spawned(s, ids, chunk, natives, gate, function, args, restart_policy, supervisor).0,
        ),
{
    same_speech_is_living(
        s,
        spawned(s, ids, chunk, natives, gate, function, args, restart_policy, supervisor).0,
    );
}

/// A deadline changes nothing that the tables say.
pub proof fn firing_is_living(s: SharedView, e: TimerEntryView)
    requires
        living(s),
    ensures
        living(fired(s, e)),
{
    same_speech_is_living(s, fired(s, e));
}

/// A message of the host changes nothing that the tables say.
pub proof fn host_message_is_living(s: SharedView, target: FlowId, message: Value)
    requires
        living(s),
    ensures
        living(host_sent(s, target, message).0),
{
    same_speech_is_living(s, host_sent(s, target, message).0);
}

/// A flow that is killed is marked while it lives, and forgotten then.
pub proof fn killing_is_living(s: SharedView, id: FlowId, reason: FlowExitReason)
    requires
        s.directory.dom().finite(),
        living(s),
    ensures
        living(kill_requested(s, id, reason)),
{
    extracting_touches(s, id, reason);
    let (t, taken) = extracted(s, id, reason);
    assert(living(t));
    match taken {
        None => {},
        Some(flow) => endings_are_living(
            t,
            seq![
                PendingView {
                    flow,
                    outcome: OutcomeView::Failed("killed ("@ + reason.spec_text()@ + ")"@),
                    reason,
                },
            ],
        ),
    }
}

/// A flow that gets a worker is marked no longer.
pub proof fn beginning_is_living(s: SharedView, flow: FlowView)
    requires
        s.directory.dom().finite(),
        living(s),
    ensures
        living(begun(s, flow).0),
{
    let f = match flow.pending_message {
        Some(v) => FlowView { pending_message: None, ..flow }.received(v),
        None => flow,
    };
    let t = SharedView { kills: s.kills.remove(f.id.0), ..s };
    assert(living(t));
    match found(s.kills, f.id.0) {
        None => {},
        Some(reason) => endings_are_living(
            t,
            seq![
                PendingView {
                    flow: f,
                    outcome: OutcomeView::Failed("linked exit ("@ + reason.spec_text()@ + ")"@),
                    reason,
                },
            ],
        ),
    }
}

proof fn parent_is_living(
    s: SharedView,
    ids: IdsView,
    f: FlowView,
    function: u32,
    args: Seq<Value>,
    dest_reg: u8,
    requested: CapRights,
)
    requires
        s.directory.dom().finite(),
        living(s),
        s.caps.handed_out(ids.cap),
    ensures
        living(after_spawn(s, ids, f, function, args, dest_reg, requested).0),
{
    let gate = child_gate(f.vm, requested);
    let (chunk, natives, policy) = (f.vm.chunk, f.vm.natives, f.restart_policy);
    spawning_is_living(s, ids, chunk, natives, gate, function, args, policy, None);
    let (u, outcome) = spawned(s, ids, chunk, natives, gate, function, args, policy, None);
    match outcome {
        Ok(child) => minting_is_living(u, ids, child, CapRights::send_ask()),
        Err(_) => failing_is_living(s, f),
    }
}

/// A monitor between live flows.
pub proof fn monitoring_is_living(s: SharedView, owner: FlowId, target: FlowId, monitor: MonitorRef)
    requires
        living(s),
    ensures
        s.alive(owner) && s.alive(target) ==> living(
            SharedView { monitors: s.monitors.created(owner, target), ..s },
        ),
        living(SharedView { monitors: s.monitors.dropped(owner, monitor), ..s }),
{
    let t = SharedView { monitors: s.monitors.dropped(owner, monitor), ..s };
    filter_keeps_only(
        s.monitors.entries,
        |e: MonitorEntry| !(e.monitor == monitor && e.owner == owner),
    );
    assert forall|i: int| 0 <= i < t.monitors.entries.len() implies t.alive(
        (#[trigger] t.monitors.entries[i]).owner,
    ) && t.alive(t.monitors.entries[i].target) by {
        let e = t.monitors.entries[i];
        assert(s.monitors.entries.contains(e));
        let j = choose|j: int| 0 <= j < s.monitors.entries.len() && s.monitors.entries[j] == e;
        assert(s.alive(s.monitors.entries[j].owner));
    }
}

/// A link between live flows.
pub proof fn linking_is_living(s: SharedView, a: FlowId, b: FlowId, link: LinkId)
    requires
        living(s),
    ensures
        s.alive(a) && s.alive(b) ==> living(SharedView { links: s.links.linked(a, b), ..s }),
        living(SharedView { links: s.links.dropped(a, link), ..s }),
{
    let t = SharedView { links: s.links.dropped(a, link), ..s };
    filter_keeps_only(s.links.entries, |e: LinkEntry| !(e.link == link && e.joins(a)));
    assert forall|i: int| 0 <= i < t.links.entries.len() implies t.alive(
        (#[trigger] t.links.entries[i]).a,
    ) && t.alive(t.links.entries[i].b) by {
        let e = t.links.entries[i];
        assert(s.links.entries.contains(e));
        let j = choose|j: int| 0 <= j < s.links.entries.len() && s.links.entries[j] == e;
        assert(s.alive(s.links.entries[j].a));
    }
}

/// Whatever a live flow stops for, the tables speak of live flows afterwards.
pub proof fn applying_is_living(
    s: SharedView,
    ids: IdsView,
    now: u64,
    flow: FlowView,
    r: VmResultView,
)
    requires
        s.directory.dom().finite(),
        living(s),
        s.caps.handed_out(ids.cap),
        s.alive(flow.id),
    ensures
        living(applied(s, ids, now, flow, r).0),
{
    let f = FlowView {
        metrics: FlowMetrics { instructions: flow.vm.executed, ..flow.metrics },
        ..flow
    };
    failing_is_living(s, f);
    let t = applied(s, ids, now, flow, r).0;
    match r {
        VmResultView::Complete(v) => endings_are_living(
            s,
            seq![
                PendingView {
                    flow: f,
                    outcome: OutcomeView::Completed(v),
                    reason: FlowExitReason::Normal,
                },
            ],
        ),
        VmResultView::Yield => same_speech_is_living(s, t),
        VmResultView::Sleep(delay) => same_speech_is_living(s, t),
        VmResultView::SelfPid { dest_reg } => minting_is_living(
            s,
            ids,
            f.id,
            CapRights::send_ask(),
        ),
        VmResultView::Spawn { function, args, dest_reg, requested_rights } => parent_is_living(
            s,
            ids,
            f,
            function,
            args,
            dest_reg,
            requested_rights,
        ),
        VmResultView::Send { target_cap, message } => sender_is_living(
            s,
            ids,
            f,
            target_cap,
            message,
        ),
        VmResultView::Receive { dest_reg, timeout, match_tag } => receiver_is_living(
            s,
            now,
            f,
            dest_reg,
            timeout,
            match_tag,
        ),
        VmResultView::Ask { dest_reg, target_cap, request, timeout } => asker_is_living(
            s,
            ids,
            now,
            f,
            dest_reg,
            target_cap,
            request,
            timeout,
        ),
        VmResultView::Monitor { dest_reg, target_cap } => match cap_target(s, target_cap) {
            Ok(target) => monitoring_is_living(s, f.id, target, MonitorRef(0)),
            Err(_) => {},
        },
        VmResultView::Demonitor { monitor_reg } => match reference_in(f, monitor_reg) {
            Some(raw) => monitoring_is_living(s, f.id, f.id, MonitorRef(raw)),
            None => {},
        },
        VmResultView::Link { dest_reg, target_cap } => match cap_target(s, target_cap) {
            Ok(target) => linking_is_living(s, f.id, target, LinkId(0)),
            Err(_) => {},
        },
        VmResultView::Unlink { link_reg } => match reference_in(f, link_reg) {
            Some(raw) => linking_is_living(s, f.id, f.id, LinkId(raw)),
            None => {},
        },
        VmResultView::Delegate { dest_reg, src_cap, want_rights, want_native_cap } => {
            match delegated(s.caps.resolved(src_cap), want_rights, want_native_cap is Some) {
                Ok(entry) => minting_is_living(s, ids, entry.flow, entry.rights),
                Err(_) => {},
            }
        },
        _ => {},
    }
}

} // verus!
