//! What is true of the scheduler's state at all times.

use vstd::prelude::*;

use super::capability::{CapId, CapRights};
use super::endings::forgets;
use super::laws::{asleep, in_run_queue, waits_for_message, waits_for_room};
use super::link::LinkId;
use super::living::{
    applying_is_living, beginning_is_living, firing_is_living, host_message_is_living,
    killing_is_living, linking_is_living, living, minting_is_living, monitoring_is_living,
    spawning_is_living,
};
use super::mailbox::policy::MailboxConfig;
use super::mailbox::WaitFilter;
use super::model::{
    applied, applied_ids, begun, cap_target_for, fired, kill_requested, spawned, spawned_ids,
    SharedView,
};
use super::monitor::{FlowExitReason, MonitorRef};
use super::moves::{
    applying_is_placed, beginning_is_placed, firing_is_placed, host_message_is_placed,
    killing_is_placed, out_after, spawning_is_placed, taken_up, taking_up_is_placed,
};
use super::order::{
    applying_keeps_order, beginning_keeps_order, firing_keeps_order, host_messages_keep_order,
    killing_keeps_order, minting_is_orderly, orderly, spawning_keeps_order,
};
use super::places::{
    held, in_one_place, mailboxes_open, parked_at_home, placed_but, ready_as, sleeps_as, unmoved,
    waits, waits_agree, waits_as,
};
use super::process::{FlowId, FlowView, IdsView, RestartPolicy};
use super::registry::NameView;
use super::replies::{
    applying_agrees, asked, awaited, beginning_agrees, firing_agrees, host_message_agrees,
    killing_agrees, replies_agree, spawning_agrees, untouched_agrees,
};
use super::runtime::{host_sent, unrelatable};
use super::timer::{PayloadView, TimerView};
use crate::bytecode::chunk::Chunk;
use crate::bytecode::value::Value;
use crate::seqs::{tally, tally_two, tally_witness};
use crate::vm::native::NativeFn;
use crate::vm::result::VmResultView;

verus! {

/// What is true of the state at all times, where `out` are the flows that are
/// with a worker or in a run queue: the tables are in order and speak of live
/// flows only, no mailbox of a live flow is closed, the indices of those who
/// wait for room and for a reply agree with the mailboxes, and every live flow
/// is in one place.
pub open spec fn sound(s: SharedView, ids: IdsView, out: Set<u64>) -> bool {
    &&& orderly(s, ids)
    &&& mailboxes_open(s)
    &&& waits_agree(s)
    &&& replies_agree(s)
    &&& living(s)
    &&& parked_at_home(s)
    &&& in_one_place(s, out)
}

proof fn sound_is_placed(s: SharedView, ids: IdsView, out: Set<u64>)
    ensures
        sound(s, ids, out) <==> orderly(s, ids) && replies_agree(s) && living(s) && placed_but(
            s,
            out,
            None,
        ),
{
}

/// A state without flows is sound.
pub proof fn idle_is_sound(quantum: u32, mailbox: MailboxConfig, max_flows: u32, ids: IdsView)
    requires
        ids.flow > 0,
        ids.cap > 0,
    ensures
        sound(SharedView::idle(quantum, mailbox, max_flows), ids, Set::empty()),
{
    let s = SharedView::idle(quantum, mailbox, max_flows);
    assert forall|t: u64| (#[trigger] s.asks.waiters(t)).len() == 0 by {}
    assert forall|x: u64| #[trigger] held(s, x) == 0 by {}
    assert forall|x: u64| #[trigger] asked(s, x) == awaited(s, x) by {}
}

/// When another runtime of the process draws from the numbers, this one stays
/// sound, and what was drawn means nothing in it: no flow has the number, and
/// no capability resolves.
pub proof fn other_runtimes_do_not_interfere(
    s: SharedView,
    ids: IdsView,
    out: Set<u64>,
    later: IdsView,
    drawn: u64,
)
    requires
        sound(s, ids, out),
        ids.before(later),
    ensures
        sound(s, later, out),
        drawn >= ids.flow ==> !s.alive(FlowId(drawn)),
        drawn >= ids.cap ==> s.caps.resolved(drawn) is None,
{
}

// ---- the steps ----------------------------------------------------------

/// Starting a flow leaves a sound state.
pub proof fn spawning_keeps_sound(
    s: SharedView,
    ids: IdsView,
    out: Set<u64>,
    chunk: Chunk,
    natives: Seq<Option<(Seq<char>, NativeFn)>>,
    gate: Seq<bool>,
    function: u32,
    args: Seq<Value>,
    restart_policy: RestartPolicy,
    supervisor: Option<u64>,
)
    requires
        sound(s, ids, out),
        ids.left(),
    ensures
        sound(
            spawned(s, ids, chunk, natives, gate, function, args, restart_policy, supervisor).0,
            spawned_ids(s, ids),
            out,
        ),
{
    let t = spawned(s, ids, chunk, natives, gate, function, args, restart_policy, supervisor).0;
    spawning_keeps_order(
        s,
        ids,
        chunk,
        natives,
        gate,
        function,
        args,
        restart_policy,
        supervisor,
    );
    sound_is_placed(s, ids, out);
    spawning_is_placed(
        s,
        out,
        ids,
        chunk,
        natives,
        gate,
        function,
        args,
        restart_policy,
        supervisor,
    );
    spawning_agrees(
        s,
        ids,
        chunk,
        natives,
        gate,
        function,
        args,
        restart_policy,
        supervisor,
    );
    spawning_is_living(
        s,
        ids,
        chunk,
        natives,
        gate,
        function,
        args,
        restart_policy,
        supervisor,
    );
    sound_is_placed(t, spawned_ids(s, ids), out);
}

/// Killing a flow leaves a sound state.
pub proof fn killing_keeps_sound(
    s: SharedView,
    ids: IdsView,
    out: Set<u64>,
    id: FlowId,
    reason: FlowExitReason,
)
    requires
        sound(s, ids, out),
    ensures
        sound(kill_requested(s, id, reason), ids, out),
{
    killing_keeps_order(s, ids, id, reason);
    sound_is_placed(s, ids, out);
    killing_is_placed(s, out, id, reason);
    killing_agrees(s, out, id, reason);
    killing_is_living(s, id, reason);
    sound_is_placed(kill_requested(s, id, reason), ids, out);
}

/// Putting the ready flows into run queues leaves a sound state.
pub proof fn queueing_keeps_sound(s: SharedView, ids: IdsView, out: Set<u64>)
    requires
        sound(s, ids, out),
    ensures
        sound(SharedView { ready: Seq::empty(), ..s }, ids, taken_up(out, s.ready)),
{
    let t = SharedView { ready: Seq::empty(), ..s };
    sound_is_placed(s, ids, out);
    taking_up_is_placed(s, out);
    untouched_agrees(s, t, Set::empty());
    sound_is_placed(t, ids, taken_up(out, s.ready));
}

/// Giving a flow a worker leaves a sound state. The flow goes on, or has ended.
pub proof fn beginning_keeps_sound(s: SharedView, ids: IdsView, out: Set<u64>, flow: FlowView)
    requires
        sound(s, ids, out),
        out.contains(flow.id.0),
    ensures
        sound(begun(s, flow).0, ids, out_after(out, flow.id, begun(s, flow).1)),
        begun(s, flow).1 matches Some(f) ==> f.id == flow.id,
{
    beginning_keeps_order(s, ids, flow);
    sound_is_placed(s, ids, out);
    beginning_is_placed(s, out, flow);
    beginning_agrees(s, out, flow);
    beginning_is_living(s, flow);
    sound_is_placed(begun(s, flow).0, ids, out_after(out, flow.id, begun(s, flow).1));
}

/// Doing what is due first leaves a sound state.
pub proof fn firing_keeps_sound(s: SharedView, ids: IdsView, out: Set<u64>)
    requires
        sound(s, ids, out),
        s.timer.entries.len() > 0,
    ensures
        sound(
            fired(
                SharedView {
                    timer: TimerView { entries: s.timer.entries.skip(1), ..s.timer },
                    ..s
                },
                s.timer.entries[0],
            ),
            ids,
            out,
        ),
{
    firing_keeps_order(s, ids);
    sound_is_placed(s, ids, out);
    firing_is_placed(s, out);
    let t = SharedView {
        timer: TimerView { entries: s.timer.entries.skip(1), ..s.timer },
        ..s
    };
    untouched_agrees(s, t, Set::empty());
    firing_agrees(t, s.timer.entries[0]);
    firing_is_living(t, s.timer.entries[0]);
}

/// A message of the host leaves a sound state.
pub proof fn host_messages_keep_sound(
    s: SharedView,
    ids: IdsView,
    out: Set<u64>,
    target: FlowId,
    message: Value,
)
    requires
        sound(s, ids, out),
    ensures
        sound(host_sent(s, target, message).0, ids, out),
{
    host_messages_keep_order(s, ids, target, message);
    sound_is_placed(s, ids, out);
    host_message_is_placed(s, out, target, message);
    host_message_agrees(s, target, message);
    host_message_is_living(s, target, message);
    sound_is_placed(host_sent(s, target, message).0, ids, out);
}

/// A capability that the host mints for a live flow leaves a sound state.
pub proof fn host_mints_keep_sound(
    s: SharedView,
    ids: IdsView,
    out: Set<u64>,
    flow: FlowId,
    rights: CapRights,
)
    requires
        sound(s, ids, out),
        ids.left(),
        s.alive(flow),
    ensures
        sound(SharedView { caps: s.caps.minted(ids.cap, flow, rights), ..s }, ids.cap_drawn(), out),
{
    let t = SharedView { caps: s.caps.minted(ids.cap, flow, rights), ..s };
    minting_is_orderly(s, ids, flow, rights);
    minting_is_living(s, ids, flow, rights);
    sound_is_placed(s, ids, out);
    unmoved(s, t, out, None);
    untouched_agrees(s, t, Set::empty());
    sound_is_placed(t, ids.cap_drawn(), out);
}

/// Counters, ends that were announced and the stop of the timer have no part in
/// whether a state is sound.
pub proof fn bookkeeping_keeps_sound(s: SharedView, t: SharedView, ids: IdsView, out: Set<u64>)
    requires
        sound(s, ids, out),
        t == (SharedView {
            metrics: t.metrics,
            endings: t.endings,
            timer: TimerView { shutdown: t.timer.shutdown, ..s.timer },
            ..s
        }),
    ensures
        sound(t, ids, out),
{
    sound_is_placed(s, ids, out);
    unmoved(s, t, out, None);
    untouched_agrees(s, t, Set::empty());
    sound_is_placed(t, ids, out);
}

/// Monitors and links that the host sets up between live flows, or takes away,
/// leave a sound state.
pub proof fn host_relations_keep_sound(
    s: SharedView,
    ids: IdsView,
    out: Set<u64>,
    a: FlowId,
    b: FlowId,
    monitor: MonitorRef,
    link: LinkId,
)
    requires
        sound(s, ids, out),
    ensures
        unrelatable(s, a, b) is None ==> sound(
            SharedView { monitors: s.monitors.created(a, b), ..s },
            ids,
            out,
        ) && sound(SharedView { links: s.links.linked(a, b), ..s }, ids, out),
        sound(SharedView { monitors: s.monitors.dropped(a, monitor), ..s }, ids, out),
        sound(SharedView { links: s.links.dropped(a, link), ..s }, ids, out),
{
    sound_is_placed(s, ids, out);
    monitoring_is_living(s, a, b, monitor);
    linking_is_living(s, a, b, link);
    let ts = seq![
        SharedView { monitors: s.monitors.created(a, b), ..s },
        SharedView { links: s.links.linked(a, b), ..s },
        SharedView { monitors: s.monitors.dropped(a, monitor), ..s },
        SharedView { links: s.links.dropped(a, link), ..s },
    ];
    assert forall|i: int| 0 <= i < 4 && living(#[trigger] ts[i]) implies sound(ts[i], ids, out) by {
        unmoved(s, ts[i], out, None);
        untouched_agrees(s, ts[i], Set::empty());
        sound_is_placed(ts[i], ids, out);
    }
    assert(ts[0] == SharedView { monitors: s.monitors.created(a, b), ..s });
    assert(ts[1] == SharedView { links: s.links.linked(a, b), ..s });
    assert(ts[2] == SharedView { monitors: s.monitors.dropped(a, monitor), ..s });
    assert(ts[3] == SharedView { links: s.links.dropped(a, link), ..s });
}

/// A name that the host binds to what a capability reaches, or unbinds, leaves a
/// sound state.
pub proof fn host_names_keep_sound(
    s: SharedView,
    ids: IdsView,
    out: Set<u64>,
    name: Seq<char>,
    cap: CapId,
    i: int,
)
    requires
        sound(s, ids, out),
    ensures
        s.caps.resolved(cap.0) matches Some(e) ==> sound(
            SharedView { registry: s.registry.push(NameView { name, cap, flow: e.flow }), ..s },
            ids,
            out,
        ),
        0 <= i < s.registry.len() ==> sound(
            SharedView { registry: s.registry.remove(i), ..s },
            ids,
            out,
        ),
{
    sound_is_placed(s, ids, out);
    match s.caps.resolved(cap.0) {
        None => {},
        Some(e) => {
            let t = SharedView {
                registry: s.registry.push(NameView { name, cap, flow: e.flow }),
                ..s
            };
            unmoved(s, t, out, None);
            untouched_agrees(s, t, Set::empty());
        },
    }
    if 0 <= i < s.registry.len() {
        let t = SharedView { registry: s.registry.remove(i), ..s };
        unmoved(s, t, out, None);
        untouched_agrees(s, t, Set::empty());
    }
}

/// Whatever a flow stops for, answering it leaves a sound state. The flow goes
/// on, or is where the state has it.
pub proof fn applying_keeps_sound(
    s: SharedView,
    ids: IdsView,
    out: Set<u64>,
    now: u64,
    flow: FlowView,
    r: VmResultView,
)
    requires
        sound(s, ids, out),
        ids.left(),
        out.contains(flow.id.0),
    ensures
        sound(
            applied(s, ids, now, flow, r).0,
            applied_ids(s, ids, flow, r),
            out_after(out, flow.id, applied(s, ids, now, flow, r).1),
        ),
        applied(s, ids, now, flow, r).1 matches Some(f) ==> f.id == flow.id,
        ids.before(applied_ids(s, ids, flow, r)),
{
    let (t, next) = applied(s, ids, now, flow, r);
    applying_keeps_order(s, ids, now, flow, r);
    sound_is_placed(s, ids, out);
    applying_is_placed(s, out, ids, now, flow, r);
    applying_agrees(s, out, ids, now, flow, r);
    assert(held(s, flow.id.0) == 0 && s.alive(flow.id));
    applying_is_living(s, ids, now, flow, r);
    sound_is_placed(t, applied_ids(s, ids, flow, r), out_after(out, flow.id, next));
}

// ---- what a sound state says --------------------------------------------

/// 1 if it is so, else 0.
pub open spec fn one_if(b: bool) -> nat {
    if b {
        1
    } else {
        0
    }
}

/// A live flow is in exactly one place: it is with a worker or in a run queue,
/// ready to be put into one, asleep, waiting for a message, or waiting for
/// room. A flow that is not alive is in none.
pub proof fn live_flow_has_one_place(s: SharedView, ids: IdsView, out: Set<u64>, id: FlowId)
    requires
        sound(s, ids, out),
    ensures
        one_if(out.contains(id.0)) + one_if(in_run_queue(s, id)) + one_if(asleep(s, id)) + one_if(
            waits_for_message(s, id),
        ) + one_if(waits_for_room(s, id)) == one_if(s.alive(id)),
{
    let x = id.0;
    assert(held(s, x) >= 0);
    tally_witness(s.ready, ready_as(x));
    tally_witness(s.timer.entries, sleeps_as(x));
    if in_run_queue(s, id) {
        let i = choose|i: int| 0 <= i < s.ready.len() && (#[trigger] s.ready[i]).1.id == id;
        assert(ready_as(x)(s.ready[i]));
    }
    if tally(s.ready, ready_as(x)) > 0 {
        let i = choose|i: int| 0 <= i < s.ready.len() && ready_as(x)(#[trigger] s.ready[i]);
        assert(s.ready[i].1.id == id);
    }
    if asleep(s, id) {
        let i = choose|i: int|
            0 <= i < s.timer.entries.len() && ((#[trigger] s.timer.entries[i]).payload matches
                PayloadView::WakeSleeper(f) && f.id == id);
        assert(sleeps_as(x)(s.timer.entries[i]));
    }
    if tally(s.timer.entries, sleeps_as(x)) > 0 {
        let i = choose|i: int|
            0 <= i < s.timer.entries.len() && sleeps_as(x)(#[trigger] s.timer.entries[i]);
        assert(s.timer.entries[i].payload matches PayloadView::WakeSleeper(f) && f.id == id);
    }
    if waits_for_room(s, id) {
        let (at, i) = choose|at: u64, i: int|
            s.directory.dom().contains(at) && 0 <= i < s.directory[at].waiting.len() && (
            #[trigger] s.directory[at].waiting[i]).0.id == id;
        assert(waits_as(x)(s.directory[at].waiting[i]));
        tally_witness(s.directory[at].waiting, waits_as(x));
        assert(waits(s, at, x) > 0);
    }
    if s.waiting_send.dom().contains(x) {
        let at = s.waiting_send[x];
        assert(waits(s, at, x) == 1);
        tally_witness(s.directory[at].waiting, waits_as(x));
        let i = choose|i: int|
            0 <= i < s.directory[at].waiting.len() && waits_as(x)(
                #[trigger] s.directory[at].waiting[i],
            );
        assert(s.directory[at].waiting[i].0.id == id);
    }
}

/// No flow is twice in the ready list, asleep twice, or twice in the line of a
/// mailbox.
pub proof fn no_flow_is_held_twice(
    s: SharedView,
    ids: IdsView,
    out: Set<u64>,
    at: u64,
    i: int,
    j: int,
)
    requires
        sound(s, ids, out),
        0 <= i < j,
    ensures
        j < s.ready.len() ==> s.ready[i].1.id != s.ready[j].1.id,
        j < s.timer.entries.len() ==> (s.timer.entries[i].payload matches PayloadView::WakeSleeper(
            f,
        ) ==> (s.timer.entries[j].payload matches PayloadView::WakeSleeper(g) ==> f.id != g.id)),
        s.directory.dom().contains(at) && j < s.directory[at].waiting.len()
            ==> s.directory[at].waiting[i].0.id != s.directory[at].waiting[j].0.id,
{
    if j < s.ready.len() && s.ready[i].1.id == s.ready[j].1.id {
        let x = s.ready[i].1.id.0;
        tally_two(s.ready, ready_as(x), i, j);
        assert(held(s, x) >= 2);
    }
    if j < s.timer.entries.len() {
        match (s.timer.entries[i].payload, s.timer.entries[j].payload) {
            (PayloadView::WakeSleeper(f), PayloadView::WakeSleeper(g)) => if f.id == g.id {
                tally_two(s.timer.entries, sleeps_as(f.id.0), i, j);
                assert(held(s, f.id.0) >= 2);
            },
            _ => {},
        }
    }
    if s.directory.dom().contains(at) && j < s.directory[at].waiting.len() {
        let w = s.directory[at].waiting;
        if w[i].0.id == w[j].0.id {
            tally_two(w, waits_as(w[i].0.id.0), i, j);
            assert(waits(s, at, w[i].0.id.0) >= 2);
        }
    }
}

/// Of a flow that is not alive nothing in the state speaks, at any time: no
/// capability reaches it, no name, monitor, link or mark is left of it, nobody
/// waits for it, and it waits for nobody.
pub proof fn dead_flow_stays_forgotten(s: SharedView, ids: IdsView, out: Set<u64>, id: FlowId)
    requires
        sound(s, ids, out),
        !s.alive(id),
    ensures
        forgets(s, id),
{
    assert(held(s, id.0) == 0);
    assert(asked(s, id.0) == awaited(s, id.0));
    let w = s.asks.waiters(id.0);
    if w.len() > 0 {
        let a = w[0];
        assert(s.asks.by_asker.dom().contains(s.asks.waiters(id.0)[0]));
        assert(asked(s, a) == Some(id.0));
    }
}

/// A flow that waits for the reply of another waits for one that is alive, and
/// is listed with it, so that it hears of its end.
pub proof fn nobody_waits_for_the_dead(
    s: SharedView,
    ids: IdsView,
    out: Set<u64>,
    id: FlowId,
    request_id: u64,
    target: FlowId,
)
    requires
        sound(s, ids, out),
        waits_for_message(s, id),
        s.directory[id.0].filter == (WaitFilter::Correlation {
            expect_request_id: request_id,
            expect_sender: Some(target.0),
        }),
    ensures
        s.alive(target),
        s.asks.waiters(target.0).contains(id.0),
{
    assert(asked(s, id.0) == awaited(s, id.0));
}

/// Only a flow that waits for a reply is listed with another, and only with the
/// one whose reply it waits for.
pub proof fn only_askers_are_listed(
    s: SharedView,
    ids: IdsView,
    out: Set<u64>,
    id: FlowId,
    target: FlowId,
)
    requires
        sound(s, ids, out),
        s.asks.waiters(target.0).contains(id.0),
    ensures
        waits_for_message(s, id),
        s.directory[id.0].filter matches WaitFilter::Correlation { expect_request_id, expect_sender }
            && expect_sender == Some(target.0),
{
    let w = s.asks.waiters(target.0);
    let i = choose|i: int| 0 <= i < w.len() && w[i] == id.0;
    assert(s.asks.by_asker.dom().contains(s.asks.waiters(target.0)[i]));
    assert(asked(s, id.0) == awaited(s, id.0));
}

proof fn waiting_sender_is_alive(s: SharedView, ids: IdsView, out: Set<u64>, at: FlowId, i: int)
    requires
        sound(s, ids, out),
        s.alive(at),
        0 <= i < s.directory[at.0].waiting.len(),
    ensures
        s.alive(s.directory[at.0].waiting[i].0.id),
{
    let w = s.directory[at.0].waiting;
    let x = w[i].0.id.0;
    assert(waits_as(x)(w[i]));
    tally_witness(w, waits_as(x));
    assert(waits(s, at.0, x) > 0);
    assert(held(s, x) > 0);
}

/// A flow that receives, and one that sends or asks with a message and a
/// capability that has the right for it, never ends for it, nor does any other
/// flow: its own mailbox and the one that it waits at are always there and
/// open.
pub proof fn waiting_ends_no_flow(
    s: SharedView,
    ids: IdsView,
    out: Set<u64>,
    now: u64,
    flow: FlowView,
    r: VmResultView,
)
    requires
        sound(s, ids, out),
        out.contains(flow.id.0),
        r is Receive || (r matches VmResultView::Send { target_cap, message }
            && message.spec_as_message() is Some && cap_target_for(s, target_cap, CapRights::send())
            is Ok) || (r matches VmResultView::Ask { dest_reg, target_cap, request, timeout }
            && request.spec_as_message() is Some && cap_target_for(s, target_cap, CapRights::ask())
            is Ok),
    ensures
        s.alive(flow.id),
        !s.directory[flow.id.0].closed,
        applied(s, ids, now, flow, r).0.endings == s.endings,
{
    assert(held(s, flow.id.0) == 0);
    match r {
        VmResultView::Receive { dest_reg, timeout, match_tag } => {
            let filter = match match_tag {
                None => WaitFilter::Any,
                Some(tag) => WaitFilter::Tag(tag),
            };
            let m = s.directory[flow.id.0];
            let (after, found) = m.popped(filter);
            if found is Some && after.admitted().1 is Some {
                waiting_sender_is_alive(s, ids, out, flow.id, 0);
            }
        },
        _ => {},
    }
}

} // verus!
