//! Each operation leaves every flow in one place.

use vstd::prelude::*;

use super::capability::CapRights;
use super::endings::{extracting_touches, waking_touches};
use super::link::LinkId;
use super::mailbox::{MailboxView, WaitFilter};
use super::model::{
    after_ask, after_delegate, after_demonitor, after_link, after_monitor, after_receive,
    after_send, after_spawn, after_unlink, all_finalized, applied, begun, cap_target_for,
    child_gate, delivered, down_delivered, downs_delivered, extracted, failed, finalizing_shrinks,
    finished, fired, forgotten, gone_notice, kill_requested, links_collected, links_cut,
    mailbox_closed, monitors_told, one_finalized, orphan_woken, orphans_released, orphans_woken,
    parked_for_reply, parked_for_room, parked_on_mailbox, room_given, sends_dropped, sent_counted,
    spawned, stamped, unmarked, Lane, PendingView, SharedView,
};
use super::monitor::{DownEvent, FlowExitReason};
use super::places::{
    born, distinct, hand_add, hand_of, hand_pop, hand_push, held, made_ready_from_hand,
    mailbox_changed, placed_but, ready_as, same_places, timer_inserted, timer_popped, unmoved,
    waiting_from_hand, waiting_to_hand, waits, waits_as,
};
use super::process::{
    FlowId, FlowMetrics, FlowView, IdsView, OutcomeView, PendingSend, RestartPolicy,
};
use super::runtime::host_sent;
use super::timer::{due_at, slot, slot_bounds, PayloadView, TimerEntryView, TimerView};
use super::waits::found;
use crate::bytecode::chunk::Chunk;
use crate::bytecode::value::{Message, Value};
use crate::seqs::{tally, tally_two, tally_witness};
use crate::vm::native::NativeFn;
use crate::vm::result::VmResultView;

verus! {

/// A flow that waited for a message is made ready.
proof fn waking_is_placed(
    s: SharedView,
    t: SharedView,
    out: Set<u64>,
    c: Option<u64>,
    id: FlowId,
    m: MailboxView,
    lane: Lane,
    f: FlowView,
)
    requires
        placed_but(s, out, c),
        s.alive(id),
        s.directory[id.0].parked is Some,
        f.id == s.directory[id.0].parked.unwrap().id,
        m.parked is None,
        m.waiting == s.directory[id.0].waiting,
        m.closed == s.directory[id.0].closed,
        same_places(s.with_mailbox(id, m).made_ready(lane, f), t),
    ensures
        placed_but(t, out, c),
{
    let u = s.with_mailbox(id, m);
    mailbox_changed(s, u, out, c, id, m);
    made_ready_from_hand(u, t, out.insert(id.0), c, lane, f);
    assert(out.insert(id.0).remove(id.0) =~= out);
}

/// A mailbox changed, but not who waits at it for what.
pub proof fn filling_is_placed(
    s: SharedView,
    t: SharedView,
    out: Set<u64>,
    c: Option<u64>,
    id: FlowId,
    m: MailboxView,
)
    requires
        placed_but(s, out, c),
        s.alive(id),
        m.parked == s.directory[id.0].parked,
        m.waiting == s.directory[id.0].waiting,
        m.closed == s.directory[id.0].closed,
        same_places(s.with_mailbox(id, m), t),
    ensures
        placed_but(t, out, c),
{
    mailbox_changed(s, t, out, c, id, m);
}

// ---- the end of a flow --------------------------------------------------

proof fn orphan_is_placed(s: SharedView, out: Set<u64>, c: Option<u64>, asker: FlowId, hop: Value)
    requires
        placed_but(s, out, c),
    ensures
        ({
            let t = orphan_woken(s, asker, hop);
            &&& placed_but(t, out, c)
            &&& forall|x: u64| #[trigger]
                s.directory.dom().contains(x) ==> t.directory[x].waiting == s.directory[x].waiting
        }),
{
    if s.alive(asker) {
        let m = s.directory[asker.0];
        let t = orphan_woken(s, asker, hop);
        match m.parked {
            None => filling_is_placed(s, t, out, c, asker, m.unparked()),
            Some(f) => waking_is_placed(
                s,
                t,
                out,
                c,
                asker,
                m.unparked(),
                Lane::Global,
                f.received(hop),
            ),
        }
    }
}

proof fn orphans_are_placed(
    s: SharedView,
    out: Set<u64>,
    c: Option<u64>,
    askers: Seq<u64>,
    hop: Value,
    n: nat,
)
    requires
        placed_but(s, out, c),
    ensures
        ({
            let t = orphans_woken(s, askers, hop, n);
            &&& placed_but(t, out, c)
            &&& forall|x: u64| #[trigger]
                s.directory.dom().contains(x) ==> t.directory[x].waiting == s.directory[x].waiting
        }),
    decreases n,
{
    if n > 0 {
        orphans_are_placed(s, out, c, askers, hop, (n - 1) as nat);
        waking_touches(s, askers, hop, (n - 1) as nat);
        let u = orphans_woken(s, askers, hop, (n - 1) as nat);
        orphan_is_placed(u, out, c, FlowId(askers[n - 1]), hop);
        let t = orphans_woken(s, askers, hop, n);
        assert forall|x: u64| #[trigger] s.directory.dom().contains(x) implies t.directory[x].waiting
            == s.directory[x].waiting by {
            assert(u.directory.dom().contains(x));
        }
    }
}

proof fn downs_are_placed(s: SharedView, out: Set<u64>, events: Seq<DownEvent>, n: nat)
    requires
        placed_but(s, out, None),
    ensures
        placed_but(downs_delivered(s, events, n), out, None),
    decreases n,
{
    if n > 0 {
        downs_are_placed(s, out, events, (n - 1) as nat);
        let u = downs_delivered(s, events, (n - 1) as nat);
        let e = events[n - 1];
        let t = down_delivered(u, e);
        let hop = Value::Message(Message::down_spec(e.monitor.0, e.target.0, e.reason.code()));
        if u.alive(e.owner) {
            let m = u.directory[e.owner.0];
            let after = m.pushed_system(hop).0;
            if m.wants(hop) {
                let f = m.parked.unwrap();
                waking_is_placed(u, t, out, None, e.owner, after, Lane::Global, f.received(hop));
            } else {
                filling_is_placed(u, t, out, None, e.owner, after);
            }
        }
    }
}

proof fn sender_index_is_first(m: MailboxView, id: FlowId, i: nat, j: nat)
    requires
        i <= j < m.waiting.len(),
        m.waiting[j as int].0.id == id,
    ensures
        i <= m.sender_index(id, i) <= j,
        m.waiting[m.sender_index(id, i) as int].0.id == id,
    decreases m.waiting.len() - i,
{
    if m.waiting[i as int].0.id != id {
        sender_index_is_first(m, id, i + 1, j);
    }
}

/// A flow that is counted among the waiting is found there.
proof fn waiting_sender_is_found(m: MailboxView, id: FlowId)
    requires
        tally(m.waiting, waits_as(id.0)) > 0,
    ensures
        m.sender_index(id, 0) < m.waiting.len(),
        m.waiting[m.sender_index(id, 0) as int].0.id == id,
{
    tally_witness(m.waiting, waits_as(id.0));
    let j = choose|j: int| 0 <= j < m.waiting.len() && waits_as(id.0)(#[trigger] m.waiting[j]);
    assert(m.waiting[j].0.id == id);
    sender_index_is_first(m, id, 0, j as nat);
}

/// Taking a flow out of where it waits puts it in hand.
pub proof fn extracting_is_placed(s: SharedView, out: Set<u64>, id: FlowId, reason: FlowExitReason)
    requires
        placed_but(s, out, None),
    ensures
        ({
            let (t, taken) = extracted(s, id, reason);
            &&& taken matches Some(f) ==> f.id == id && !out.contains(id.0) && placed_but(
                t,
                out.insert(id.0),
                None,
            )
            &&& taken is None ==> placed_but(t, out, None)
        }),
{
    if s.alive(id) {
        let m = s.directory[id.0];
        let u = SharedView { kills: s.kills.insert(id.0, reason), ..s }.with_mailbox(
            id,
            m.unparked(),
        );
        mailbox_changed(s, u, out, None, id, m.unparked());
        if m.parked is None && s.waiting_send.dom().contains(id.0) {
            let target = s.waiting_send[id.0];
            assert(u.waiting_send.dom().contains(id.0));
            assert(u.alive(FlowId(target)));
            assert(waits(u, target, id.0) == 1);
            let b = u.directory[target];
            waiting_sender_is_found(b, id);
            let i = b.sender_index(id, 0) as int;
            waiting_to_hand(
                u,
                extracted(s, id, reason).0,
                out,
                None,
                FlowId(target),
                i,
                MailboxView { waiting: b.waiting.remove(i), ..b },
            );
        }
    }
}

proof fn links_are_placed(s: SharedView, out: Set<u64>, peers: Seq<(LinkId, FlowId)>, n: nat)
    requires
        placed_but(s, out, None),
    ensures
        ({
            let (t, work) = links_collected(s, peers, n);
            placed_but(t, hand_of(out, work), None) && distinct(out, work)
        }),
    decreases n,
{
    if n == 0 {
        assert(hand_of(out, Seq::empty()) =~= out);
    } else {
        links_are_placed(s, out, peers, (n - 1) as nat);
        let (u, work) = links_collected(s, peers, (n - 1) as nat);
        extracting_is_placed(u, hand_of(out, work), peers[n - 1].1, FlowExitReason::Link);
        match extracted(u, peers[n - 1].1, FlowExitReason::Link).1 {
            None => {},
            Some(flow) => hand_push(
                out,
                work,
                PendingView {
                    flow,
                    outcome: OutcomeView::Failed("linked exit (link)"@),
                    reason: FlowExitReason::Link,
                },
            ),
        }
    }
}

/// Whether one of the first `n` senders is flow `x`.
spec fn among(waiting: Seq<(FlowView, Value)>, n: nat, x: u64) -> bool {
    exists|i: int| 0 <= i < n && (#[trigger] waiting[i]).0.id.0 == x
}

proof fn dropping_is_exact(w: Map<u64, u64>, waiting: Seq<(FlowView, Value)>, n: nat, x: u64)
    requires
        n <= waiting.len(),
    ensures
        sends_dropped(w, waiting, n).dom().contains(x) <==> w.dom().contains(x) && !among(
            waiting,
            n,
            x,
        ),
        sends_dropped(w, waiting, n).dom().contains(x) ==> sends_dropped(w, waiting, n)[x] == w[x],
    decreases n,
{
    if n > 0 {
        dropping_is_exact(w, waiting, (n - 1) as nat, x);
        if among(waiting, (n - 1) as nat, x) {
            let i = choose|i: int| 0 <= i < n - 1 && (#[trigger] waiting[i]).0.id.0 == x;
            assert(waiting[i].0.id.0 == x);
        }
        if waiting[n - 1].0.id.0 == x {
            assert(among(waiting, n, x));
        }
    }
}

/// Closing the mailbox of a flow in hand puts those in hand that wait at it.
proof fn closing_is_placed(s: SharedView, out: Set<u64>, id: FlowId)
    requires
        placed_but(s, out, None),
        out.contains(id.0),
    ensures
        ({
            let (t, senders) = mailbox_closed(s, id);
            &&& placed_but(t, hand_of(out, senders), Some(id.0))
            &&& distinct(out, senders)
            &&& t.alive(id)
            &&& t.directory[id.0].waiting.len() == 0
        }),
{
    assert(held(s, id.0) == 0 && s.alive(id));
    let m = s.directory[id.0];
    let (t, senders) = mailbox_closed(s, id);
    let n = m.waiting.len();
    assert forall|x: u64| #![trigger among(m.waiting, n, x)]
        among(m.waiting, n, x) <==> s.waiting_send.dom().contains(x) && s.waiting_send[x]
            == id.0 by {
        assert(waits(s, id.0, x) >= 0);
        tally_witness(m.waiting, waits_as(x));
        if among(m.waiting, n, x) {
            let i = choose|i: int| 0 <= i < n && (#[trigger] m.waiting[i]).0.id.0 == x;
            assert(waits_as(x)(m.waiting[i]));
        }
        if waits(s, id.0, x) > 0 {
            let i = choose|i: int| 0 <= i < n && waits_as(x)(#[trigger] m.waiting[i]);
            assert(m.waiting[i].0.id.0 == x);
        }
    }
    assert forall|x: u64| #![trigger among(m.waiting, n, x)]
        hand_of(out, senders).contains(x) <==> out.contains(x) || among(m.waiting, n, x) by {
        if among(m.waiting, n, x) {
            let i = choose|i: int| 0 <= i < n && (#[trigger] m.waiting[i]).0.id.0 == x;
            assert(senders[i].flow.id.0 == x);
        }
        if hand_of(out, senders).contains(x) && !out.contains(x) {
            let i = choose|i: int| 0 <= i < senders.len() && #[trigger] senders[i].flow.id.0 == x;
            assert(m.waiting[i].0.id.0 == x);
        }
    }
    assert forall|x: u64|
        (#[trigger] held(t, x)) + (if hand_of(out, senders).contains(x) {
            1nat
        } else {
            0nat
        }) == (if t.alive(FlowId(x)) {
            1nat
        } else {
            0nat
        }) by {
        assert(held(s, x) >= 0);
        dropping_is_exact(s.waiting_send, m.waiting, n, x);
        assert(t.alive(FlowId(x)) == s.alive(FlowId(x)));
        assert(s.alive(FlowId(x)) ==> t.directory[x].parked == s.directory[x].parked);
        assert(hand_of(out, senders).contains(x) <==> out.contains(x) || among(m.waiting, n, x));
    }
    assert forall|x: u64| #[trigger] t.waiting_send.dom().contains(x) implies t.alive(
        FlowId(t.waiting_send[x]),
    ) by {
        dropping_is_exact(s.waiting_send, m.waiting, n, x);
        assert(s.waiting_send.dom().contains(x));
    }
    assert forall|at: u64, x: u64| t.directory.dom().contains(at) implies (#[trigger] waits(
        t,
        at,
        x,
    )) == (if t.waiting_send.dom().contains(x) && t.waiting_send[x] == at {
        1nat
    } else {
        0nat
    }) by {
        assert(waits(s, at, x) >= 0);
        dropping_is_exact(s.waiting_send, m.waiting, n, x);
        assert(among(m.waiting, n, x) || !among(m.waiting, n, x));
    }
    assert forall|i: int, j: int| 0 <= i < j < senders.len() implies (
    #[trigger] senders[i]).flow.id.0 != (#[trigger] senders[j]).flow.id.0 by {
        let x = m.waiting[i].0.id.0;
        if m.waiting[j].0.id.0 == x {
            tally_two(m.waiting, waits_as(x), i, j);
            assert(waits(s, id.0, x) >= 2);
        }
    }
    assert forall|i: int| 0 <= i < senders.len() implies !out.contains(
        (#[trigger] senders[i]).flow.id.0,
    ) by {
        let x = m.waiting[i].0.id.0;
        assert(among(m.waiting, n, x));
        assert(held(s, x) >= 1);
    }
}

/// A flow whose mailbox nobody waits at is forgotten.
proof fn forgetting_is_placed(s: SharedView, out: Set<u64>, id: FlowId)
    requires
        placed_but(s, out, Some(id.0)),
        out.contains(id.0),
        s.directory[id.0].waiting.len() == 0,
    ensures
        placed_but(forgotten(s, id), out.remove(id.0), None),
{
    let t = forgotten(s, id);
    assert(held(s, id.0) == 0);
    assert forall|x: u64|
        (#[trigger] held(t, x)) + (if out.remove(id.0).contains(x) {
            1nat
        } else {
            0nat
        }) == (if t.alive(FlowId(x)) {
            1nat
        } else {
            0nat
        }) by {
        assert(held(s, x) >= 0);
    }
    assert forall|x: u64| #[trigger] t.waiting_send.dom().contains(x) implies t.alive(
        FlowId(t.waiting_send[x]),
    ) by {
        assert(s.waiting_send.dom().contains(x));
        assert(waits(s, id.0, x) == 0);
    }
    assert forall|at: u64, x: u64| t.directory.dom().contains(at) implies (#[trigger] waits(
        t,
        at,
        x,
    )) == (if t.waiting_send.dom().contains(x) && t.waiting_send[x] == at {
        1nat
    } else {
        0nat
    }) by {
        assert(waits(s, at, x) >= 0);
    }
}

/// One flow in hand ends; those that have to end with it are in hand.
pub proof fn ending_is_placed(s: SharedView, out: Set<u64>, p: PendingView)
    requires
        placed_but(s, out, None),
        out.contains(p.flow.id.0),
    ensures
        ({
            let (t, more) = one_finalized(s, p);
            let rest = out.remove(p.flow.id.0);
            placed_but(t, hand_of(rest, more), None) && distinct(rest, more)
        }),
{
    let id = p.flow.id;
    let rest = out.remove(id.0);
    let u = unmarked(s, id);
    assert(held(s, id.0) == 0);
    assert(u.waiting_send =~= s.waiting_send);
    unmoved(s, u, out, None);
    closing_is_placed(u, out, id);
    let (closed, senders) = mailbox_closed(u, id);
    let busy = hand_of(out, senders);
    let askers = closed.asks.waiters(id.0);
    let hop = Value::Message(Message::linked_exit_spec(id.0, p.reason.code()));
    let free = SharedView { asks: closed.asks.released(id.0), ..closed };
    unmoved(closed, free, busy, Some(id.0));
    orphans_are_placed(free, busy, Some(id.0), askers, hop, askers.len());
    let released = orphans_released(closed, id, p.reason);
    assert(free.directory.dom().contains(id.0));
    forgetting_is_placed(released, busy, id);
    assert forall|x: u64| busy.remove(id.0).contains(x) == hand_of(rest, senders).contains(x) by {
        if hand_of(rest, senders).contains(x) && x == id.0 {
            let i = choose|i: int| 0 <= i < senders.len() && #[trigger] senders[i].flow.id.0 == x;
            assert(!out.contains(senders[i].flow.id.0));
        }
    }
    assert(busy.remove(id.0) =~= hand_of(rest, senders));
    assert(distinct(rest, senders));
    let gone = forgotten(released, id);
    let now = hand_of(rest, senders);
    let events = gone.monitors.downs(id, p.reason);
    let quiet = SharedView { monitors: gone.monitors.without_target(id), ..gone };
    unmoved(gone, quiet, now, None);
    downs_are_placed(quiet, now, events, events.len());
    let told = monitors_told(gone, id, p.reason);
    let peers = told.links.peers(id);
    let cut = SharedView { links: told.links.without(id), ..told };
    unmoved(told, cut, now, None);
    links_are_placed(cut, now, peers, peers.len());
    let (t, more) = links_cut(told, id, p.reason);
    assert(hand_of(now, Seq::empty()) =~= now);
    assert(placed_but(t, hand_of(now, more), None) && distinct(now, more));
    unmoved(t, one_finalized(s, p).0, hand_of(now, more), None);
    hand_add(rest, senders, more);
}

proof fn endings_are_placed(s: SharedView, out: Set<u64>, work: Seq<PendingView>)
    requires
        s.directory.dom().finite(),
        placed_but(s, hand_of(out, work), None),
        distinct(out, work),
    ensures
        placed_but(all_finalized(s, work), out, None),
    decreases s.directory.dom().len(), s.links.entries.len(), work.len(),
{
    if work.len() == 0 {
        assert(hand_of(out, work) =~= out);
    } else {
        let p = work.last();
        let (u, more) = one_finalized(s, p);
        finalizing_shrinks(s, p);
        hand_pop(out, work);
        ending_is_placed(s, hand_of(out, work), p);
        hand_add(out, work.drop_last(), more);
        endings_are_placed(u, out, work.drop_last() + more);
    }
}

/// A flow in hand ends, with all that have to end with it.
proof fn finishing_is_placed(
    s: SharedView,
    out: Set<u64>,
    flow: FlowView,
    outcome: OutcomeView,
    reason: FlowExitReason,
)
    requires
        s.directory.dom().finite(),
        placed_but(s, out, None),
        out.contains(flow.id.0),
    ensures
        placed_but(finished(s, flow, outcome, reason), out.remove(flow.id.0), None),
{
    let rest = out.remove(flow.id.0);
    let work = seq![PendingView { flow, outcome, reason }];
    assert(work[0].flow.id == flow.id);
    assert(hand_of(rest, work) =~= out);
    endings_are_placed(s, rest, work);
}

// ---- messages -----------------------------------------------------------

/// Delivering a message moves no flow that is out.
pub proof fn delivering_is_placed(
    s: SharedView,
    out: Set<u64>,
    lane: Lane,
    target: FlowId,
    v: Value,
)
    requires
        placed_but(s, out, None),
    ensures
        placed_but(delivered(s, lane, target, v).0, out, None),
        delivered(s, lane, target, v).1 is Some ==> delivered(s, lane, target, v).0.alive(target),
{
    if s.alive(target) {
        let t = delivered(s, lane, target, v).0;
        let m = s.directory[target.0];
        let after = m.pushed(v).0;
        if m.wants(v) {
            waking_is_placed(
                s,
                t,
                out,
                None,
                target,
                after,
                lane,
                m.parked.unwrap().received(v),
            );
        } else {
            filling_is_placed(s, t, out, None, target, after);
        }
    }
}

/// Limiting a wait moves no flow.
proof fn limiting_is_placed(
    s: SharedView,
    out: Set<u64>,
    now: u64,
    delay: u64,
    pid: FlowId,
    dest_reg: u8,
    epoch: u64,
)
    requires
        placed_but(s, out, None),
    ensures
        placed_but(
            SharedView { timer: s.timer.limited(now, delay, pid, dest_reg, epoch), ..s },
            out,
            None,
        ),
{
    let deadline = due_at(now, delay);
    slot_bounds(s.timer.entries, deadline, s.timer.entries.len());
    timer_inserted(
        s,
        SharedView { timer: s.timer.limited(now, delay, pid, dest_reg, epoch), ..s },
        out,
        None,
        slot(s.timer.entries, deadline, s.timer.entries.len()) as int,
        TimerEntryView { deadline, payload: PayloadView::WakeReceiver { pid, dest_reg, epoch } },
    );
}

/// A flow in hand begins to wait for a message in its mailbox, which is there,
/// or is made ready with one that is there already.
proof fn parking_is_placed(
    s: SharedView,
    out: Set<u64>,
    now: u64,
    flow: FlowView,
    dest_reg: u8,
    timeout: Option<u64>,
    filter: WaitFilter,
)
    requires
        placed_but(s, out, None),
        out.contains(flow.id.0),
    ensures
        placed_but(
            parked_on_mailbox(s, now, flow, dest_reg, timeout, filter),
            out.remove(flow.id.0),
            None,
        ),
{
    assert(held(s, flow.id.0) == 0 && s.alive(flow.id));
    let m = s.directory[flow.id.0];
    let t = parked_on_mailbox(s, now, flow, dest_reg, timeout, filter);
    match m.popped(filter) {
        (after, Some(v)) => {
            let u = s.with_mailbox(flow.id, after);
            filling_is_placed(s, u, out, None, flow.id, after);
            made_ready_from_hand(
                u,
                t,
                out,
                None,
                Lane::Global,
                FlowView { pending_message: None, ..flow }.received_at(dest_reg, v),
            );
        },
        (_, None) => {
            let after = m.parked_with(flow, filter);
            let u = s.with_mailbox(flow.id, after);
            mailbox_changed(s, u, out, None, flow.id, after);
            match timeout {
                None => {},
                Some(delay) => limiting_is_placed(
                    u,
                    out.remove(flow.id.0),
                    now,
                    delay,
                    flow.id,
                    dest_reg,
                    m.epoch.wrapping_add(1),
                ),
            }
        },
    }
}

/// A flow in hand begins to wait for a reply, or is made ready.
proof fn asking_is_placed(
    s: SharedView,
    out: Set<u64>,
    now: u64,
    flow: FlowView,
    dest_reg: u8,
    timeout: Option<u64>,
    filter: WaitFilter,
    target: FlowId,
)
    requires
        placed_but(s, out, None),
        out.contains(flow.id.0),
    ensures
        placed_but(
            parked_for_reply(s, now, flow, dest_reg, timeout, filter, target),
            out.remove(flow.id.0),
            None,
        ),
{
    assert(held(s, flow.id.0) == 0 && s.alive(flow.id));
    let m = s.directory[flow.id.0];
    let asking = SharedView { asks: s.asks.attached(flow.id.0, target.0), ..s };
    let free = SharedView { asks: asking.asks.detached(flow.id.0), ..s };
    unmoved(s, asking, out, None);
    unmoved(s, free, out, None);
    let t = parked_for_reply(s, now, flow, dest_reg, timeout, filter, target);
    match m.popped(filter) {
        (after, Some(v)) => {
            let u = free.with_mailbox(flow.id, after);
            filling_is_placed(free, u, out, None, flow.id, after);
            made_ready_from_hand(
                u,
                t,
                out,
                None,
                Lane::Global,
                FlowView { pending_message: None, ..flow }.received_at(dest_reg, v),
            );
        },
        (_, None) => if !s.alive(target) {
            let after = m.parked_with(flow, filter).unparked();
            let u = free.with_mailbox(flow.id, after);
            filling_is_placed(free, u, out, None, flow.id, after);
            made_ready_from_hand(
                u,
                t,
                out,
                None,
                Lane::Global,
                flow.received_at(dest_reg, gone_notice(target)),
            );
        } else {
            let after = m.parked_with(flow, filter);
            let u = asking.with_mailbox(flow.id, after);
            mailbox_changed(asking, u, out, None, flow.id, after);
            match timeout {
                None => {},
                Some(delay) => limiting_is_placed(
                    u,
                    out.remove(flow.id.0),
                    now,
                    delay,
                    flow.id,
                    dest_reg,
                    m.epoch.wrapping_add(1),
                ),
            }
        },
    }
}

/// A flow in hand begins to wait for room at a mailbox, which is there.
proof fn queueing_is_placed(
    s: SharedView,
    out: Set<u64>,
    flow: FlowView,
    target: FlowId,
    v: Value,
    pending: PendingSend,
)
    requires
        placed_but(s, out, None),
        out.contains(flow.id.0),
        s.alive(target),
    ensures
        placed_but(parked_for_room(s, flow, target, v, pending), out.remove(flow.id.0), None),
{
    waiting_from_hand(
        s,
        parked_for_room(s, flow, target, v, pending),
        out,
        None,
        target,
        FlowView { pending_send: Some(pending), ..flow },
        v,
    );
}

/// Room in a mailbox moves no flow that is out.
proof fn admitting_is_placed(
    s: SharedView,
    out: Set<u64>,
    now: u64,
    lane: Lane,
    owner: FlowId,
)
    requires
        placed_but(s, out, None),
    ensures
        placed_but(room_given(s, now, lane, owner), out, None),
{
    if s.alive(owner) {
        let m = s.directory[owner.0];
        let (after, sender) = m.admitted();
        let t = room_given(s, now, lane, owner);
        match sender {
            None => filling_is_placed(s, t, out, None, owner, after),
            Some(sender) => {
                let u = SharedView {
                    waiting_send: s.waiting_send.remove(sender.id.0),
                    ..s.with_mailbox(owner, after)
                };
                assert(m.waiting.skip(1) =~= m.waiting.remove(0));
                waiting_to_hand(s, u, out, None, owner, 0, after);
                let busy = out.insert(sender.id.0);
                assert(busy.remove(sender.id.0) =~= out);
                let f = FlowView { pending_send: None, ..sender };
                match sender.pending_send {
                    Some(
                        PendingSend::Ask { dest_reg, expect_request_id, expect_sender, timeout },
                    ) => asking_is_placed(
                        u,
                        busy,
                        now,
                        f,
                        dest_reg,
                        timeout,
                        WaitFilter::Correlation {
                            expect_request_id,
                            expect_sender: Some(expect_sender),
                        },
                        FlowId(expect_sender),
                    ),
                    _ => made_ready_from_hand(u, t, busy, None, lane, f),
                }
            },
        }
    }
}

// ---- the steps ----------------------------------------------------------

/// The flows that are out after flow `id` stopped: it is one of them if it goes
/// on at once.
pub open spec fn out_after(out: Set<u64>, id: FlowId, next: Option<FlowView>) -> Set<u64> {
    if next is Some {
        out
    } else {
        out.remove(id.0)
    }
}

/// The flow is where it belongs after it stopped, and if it goes on it is
/// itself.
pub open spec fn settled_in(r: (SharedView, Option<FlowView>), out: Set<u64>, id: FlowId) -> bool {
    &&& placed_but(r.0, out_after(out, id, r.1), None)
    &&& r.1 matches Some(f) ==> f.id == id
}

proof fn failing_is_placed(s: SharedView, out: Set<u64>, flow: FlowView)
    requires
        s.directory.dom().finite(),
        placed_but(s, out, None),
        out.contains(flow.id.0),
    ensures
        forall|text: Seq<char>|
            placed_but(#[trigger] failed(s, flow, text), out.remove(flow.id.0), None),
{
    assert forall|text: Seq<char>|
        placed_but(#[trigger] failed(s, flow, text), out.remove(flow.id.0), None) by {
        finishing_is_placed(s, out, flow, OutcomeView::Failed(text), FlowExitReason::Fault);
    }
}

proof fn sender_is_placed(
    s: SharedView,
    out: Set<u64>,
    ids: IdsView,
    flow: FlowView,
    target_cap: u64,
    message: Value,
)
    requires
        s.directory.dom().finite(),
        placed_but(s, out, None),
        out.contains(flow.id.0),
    ensures
        settled_in(after_send(s, ids, flow, target_cap, message), out, flow.id),
{
    failing_is_placed(s, out, flow);
    match (message.spec_as_message(), cap_target_for(s, target_cap, CapRights::send())) {
        (Some(m), Ok(target)) => {
            let (t, hop) = stamped(s, ids, flow.id, m);
            let v = Value::Message(hop);
            unmoved(s, sent_counted(t), out, None);
            delivering_is_placed(sent_counted(t), out, Lane::Local, target, v);
            let (u, full) = delivered(sent_counted(t), Lane::Local, target, v);
            if full is Some {
                queueing_is_placed(
                    u,
                    out,
                    flow.counted_sent(),
                    target,
                    v,
                    PendingSend::FireAndForget,
                );
            }
        },
        _ => {},
    }
}

proof fn receiver_is_placed(
    s: SharedView,
    out: Set<u64>,
    now: u64,
    flow: FlowView,
    dest_reg: u8,
    timeout: Option<u64>,
    match_tag: Option<u16>,
)
    requires
        placed_but(s, out, None),
        out.contains(flow.id.0),
    ensures
        settled_in(after_receive(s, now, flow, dest_reg, timeout, match_tag), out, flow.id),
{
    assert(held(s, flow.id.0) == 0 && s.alive(flow.id));
    let f = FlowView { last_receive_dest: Some(dest_reg), ..flow };
    let filter = match match_tag {
        None => WaitFilter::Any,
        Some(tag) => WaitFilter::Tag(tag),
    };
    match s.directory[f.id.0].popped(filter) {
        (after, Some(v)) => {
            let u = s.with_mailbox(f.id, after);
            filling_is_placed(s, u, out, None, f.id, after);
            admitting_is_placed(u, out, now, Lane::Local, f.id);
        },
        (_, None) => parking_is_placed(s, out, now, f, dest_reg, timeout, filter),
    }
}

proof fn asker_is_placed(
    s: SharedView,
    out: Set<u64>,
    ids: IdsView,
    now: u64,
    flow: FlowView,
    dest_reg: u8,
    target_cap: u64,
    request: Value,
    timeout: Option<u64>,
)
    requires
        s.directory.dom().finite(),
        placed_but(s, out, None),
        out.contains(flow.id.0),
    ensures
        settled_in(
            after_ask(s, ids, now, flow, dest_reg, target_cap, request, timeout),
            out,
            flow.id,
        ),
{
    failing_is_placed(s, out, flow);
    match (request.spec_as_message(), cap_target_for(s, target_cap, CapRights::ask())) {
        (Some(m), Ok(target)) => {
            let (t, hop) = stamped(s, ids, flow.id, m);
            let v = Value::Message(hop);
            let f = FlowView { last_receive_dest: Some(dest_reg), ..flow }.counted_sent();
            let filter = WaitFilter::Correlation {
                expect_request_id: hop.request_id,
                expect_sender: Some(target.0),
            };
            unmoved(s, sent_counted(t), out, None);
            delivering_is_placed(sent_counted(t), out, Lane::Local, target, v);
            let (u, full) = delivered(sent_counted(t), Lane::Local, target, v);
            if full is Some {
                queueing_is_placed(
                    u,
                    out,
                    f,
                    target,
                    v,
                    PendingSend::Ask {
                        dest_reg,
                        expect_request_id: hop.request_id,
                        expect_sender: target.0,
                        timeout,
                    },
                );
            } else {
                assert(held(u, f.id.0) == 0 && u.alive(f.id));
                let (after, found) = u.directory[f.id.0].popped(filter);
                match found {
                    Some(v) => filling_is_placed(
                        u,
                        u.with_mailbox(f.id, after),
                        out,
                        None,
                        f.id,
                        after,
                    ),
                    None => asking_is_placed(u, out, now, f, dest_reg, timeout, filter, target),
                }
            }
        },
        _ => {},
    }
}

/// A new flow is ready to run.
pub proof fn spawning_is_placed(
    s: SharedView,
    out: Set<u64>,
    ids: IdsView,
    chunk: Chunk,
    natives: Seq<Option<(Seq<char>, NativeFn)>>,
    gate: Seq<bool>,
    function: u32,
    args: Seq<Value>,
    restart_policy: RestartPolicy,
    supervisor: Option<u64>,
)
    requires
        placed_but(s, out, None),
        !s.alive(FlowId(ids.flow)),
    ensures
        placed_but(
            spawned(s, ids, chunk, natives, gate, function, args, restart_policy, supervisor).0,
            out,
            None,
        ),
{
    let (t, r) = spawned(s, ids, chunk, natives, gate, function, args, restart_policy, supervisor);
    if r is Ok {
        born(s, t, out, Lane::Global, t.ready.last().1, MailboxView::fresh(s.mailbox));
    }
}

/// The flows of a ready list, beside those that are out.
pub open spec fn taken_up(out: Set<u64>, ready: Seq<(Lane, FlowView)>) -> Set<u64> {
    Set::new(
        |x: u64|
            out.contains(x) || exists|i: int| 0 <= i < ready.len() && #[trigger] ready[i].1.id.0 == x,
    )
}

/// The ready flows are put into run queues.
pub proof fn taking_up_is_placed(s: SharedView, out: Set<u64>)
    requires
        placed_but(s, out, None),
    ensures
        placed_but(
            SharedView { ready: Seq::empty(), ..s },
            taken_up(out, s.ready),
            None,
        ),
{
    let t = SharedView { ready: Seq::empty(), ..s };
    assert forall|x: u64|
        (#[trigger] held(t, x)) + (if taken_up(out, s.ready).contains(x) {
            1nat
        } else {
            0nat
        }) == (if t.alive(FlowId(x)) {
            1nat
        } else {
            0nat
        }) by {
        assert(held(s, x) >= 0);
        tally_witness(s.ready, ready_as(x));
        if tally(s.ready, ready_as(x)) > 0 {
            let i = choose|i: int| 0 <= i < s.ready.len() && ready_as(x)(#[trigger] s.ready[i]);
            assert(s.ready[i].1.id.0 == x);
        }
        if exists|i: int| 0 <= i < s.ready.len() && #[trigger] s.ready[i].1.id.0 == x {
            let i = choose|i: int| 0 <= i < s.ready.len() && #[trigger] s.ready[i].1.id.0 == x;
            assert(ready_as(x)(s.ready[i]));
        }
    }
    assert forall|at: u64, x: u64| #[trigger] waits(t, at, x) == waits(s, at, x) by {}
}

/// A deadline moves no flow that is out.
pub proof fn firing_is_placed(s: SharedView, out: Set<u64>)
    requires
        placed_but(s, out, None),
        s.timer.entries.len() > 0,
    ensures
        placed_but(
            fired(
                SharedView {
                    timer: TimerView { entries: s.timer.entries.skip(1), ..s.timer },
                    ..s
                },
                s.timer.entries[0],
            ),
            out,
            None,
        ),
{
    let t = SharedView {
        timer: TimerView { entries: s.timer.entries.skip(1), ..s.timer },
        ..s
    };
    let e = s.timer.entries[0];
    let u = fired(t, e);
    timer_popped(s, t, out, None);
    match e.payload {
        PayloadView::WakeSleeper(f) => {
            made_ready_from_hand(t, u, out.insert(f.id.0), None, Lane::Global, f);
            assert(out.insert(f.id.0).remove(f.id.0) =~= out);
        },
        PayloadView::WakeReceiver { pid, dest_reg, epoch } => {
            if t.alive(pid) && t.directory[pid.0].epoch == epoch {
                let m = t.directory[pid.0];
                match m.parked {
                    None => filling_is_placed(t, u, out, None, pid, m.unparked()),
                    Some(f) => waking_is_placed(
                        t,
                        u,
                        out,
                        None,
                        pid,
                        m.unparked(),
                        Lane::Global,
                        f.resumed(dest_reg, Value::Unit),
                    ),
                }
            }
        },
    }
}

/// A message of the host moves no flow that is out.
pub proof fn host_message_is_placed(s: SharedView, out: Set<u64>, target: FlowId, message: Value)
    requires
        placed_but(s, out, None),
    ensures
        placed_but(host_sent(s, target, message).0, out, None),
{
    if message.spec_as_message() is Some && s.alive(target) {
        let m = s.directory[target.0];
        let after = m.pushed(message).0;
        let t = host_sent(s, target, message).0;
        if m.wants(message) {
            waking_is_placed(s, t, out, None, target, after, Lane::Global, t.ready.last().1);
        } else {
            filling_is_placed(s, t, out, None, target, after);
        }
    }
}

/// Killing a flow moves no flow that is out.
pub proof fn killing_is_placed(s: SharedView, out: Set<u64>, id: FlowId, reason: FlowExitReason)
    requires
        s.directory.dom().finite(),
        placed_but(s, out, None),
    ensures
        placed_but(kill_requested(s, id, reason), out, None),
{
    extracting_is_placed(s, out, id, reason);
    extracting_touches(s, id, reason);
    let (t, taken) = extracted(s, id, reason);
    match taken {
        None => {},
        Some(flow) => {
            finishing_is_placed(
                t,
                out.insert(id.0),
                flow,
                OutcomeView::Failed("killed ("@ + reason.spec_text()@ + ")"@),
                reason,
            );
            assert(out.insert(id.0).remove(id.0) =~= out);
        },
    }
}

/// A flow that gets a worker goes on, or ends.
pub proof fn beginning_is_placed(s: SharedView, out: Set<u64>, flow: FlowView)
    requires
        s.directory.dom().finite(),
        placed_but(s, out, None),
        out.contains(flow.id.0),
    ensures
        settled_in(begun(s, flow), out, flow.id),
{
    let f = match flow.pending_message {
        Some(v) => FlowView { pending_message: None, ..flow }.received(v),
        None => flow,
    };
    let t = SharedView { kills: s.kills.remove(f.id.0), ..s };
    unmoved(s, t, out, None);
    match found(s.kills, f.id.0) {
        None => {},
        Some(reason) => finishing_is_placed(
            t,
            out,
            f,
            OutcomeView::Failed("linked exit ("@ + reason.spec_text()@ + ")"@),
            reason,
        ),
    }
}

proof fn parent_is_placed(
    s: SharedView,
    out: Set<u64>,
    ids: IdsView,
    f: FlowView,
    function: u32,
    args: Seq<Value>,
    dest_reg: u8,
    requested: CapRights,
)
    requires
        s.directory.dom().finite(),
        placed_but(s, out, None),
        out.contains(f.id.0),
        !s.alive(FlowId(ids.flow)),
    ensures
        settled_in(after_spawn(s, ids, f, function, args, dest_reg, requested), out, f.id),
{
    let gate = child_gate(f.vm, requested);
    let (chunk, natives, policy) = (f.vm.chunk, f.vm.natives, f.restart_policy);
    spawning_is_placed(s, out, ids, chunk, natives, gate, function, args, policy, None);
    let (u, outcome) = spawned(s, ids, chunk, natives, gate, function, args, policy, None);
    let t = after_spawn(s, ids, f, function, args, dest_reg, requested).0;
    match outcome {
        Ok(_) => unmoved(u, t, out, None),
        Err(_) => failing_is_placed(s, out, f),
    }
}

proof fn relation_is_placed(s: SharedView, out: Set<u64>, ids: IdsView, f: FlowView, r: VmResultView)
    requires
        s.directory.dom().finite(),
        placed_but(s, out, None),
        out.contains(f.id.0),
    ensures
        match r {
            VmResultView::Monitor { dest_reg, target_cap } => settled_in(
                after_monitor(s, f, dest_reg, target_cap),
                out,
                f.id,
            ),
            VmResultView::Demonitor { monitor_reg } => settled_in(
                after_demonitor(s, f, monitor_reg),
                out,
                f.id,
            ),
            VmResultView::Link { dest_reg, target_cap } => settled_in(
                after_link(s, f, dest_reg, target_cap),
                out,
                f.id,
            ),
            VmResultView::Unlink { link_reg } => settled_in(after_unlink(s, f, link_reg), out, f.id),
            VmResultView::Delegate { dest_reg, src_cap, want_rights, want_native_cap } =>
                settled_in(
                after_delegate(s, ids, f, dest_reg, src_cap, want_rights, want_native_cap),
                out,
                f.id,
            ),
            _ => true,
        },
{
    failing_is_placed(s, out, f);
    let next = match r {
        VmResultView::Monitor { dest_reg, target_cap } => after_monitor(s, f, dest_reg, target_cap),
        VmResultView::Demonitor { monitor_reg } => after_demonitor(s, f, monitor_reg),
        VmResultView::Link { dest_reg, target_cap } => after_link(s, f, dest_reg, target_cap),
        VmResultView::Unlink { link_reg } => after_unlink(s, f, link_reg),
        VmResultView::Delegate { dest_reg, src_cap, want_rights, want_native_cap } =>
            after_delegate(s, ids, f, dest_reg, src_cap, want_rights, want_native_cap),
        _ => (s, Some(f)),
    };
    if next.1 is Some {
        unmoved(s, next.0, out, None);
    }
}

proof fn sleeper_is_placed(s: SharedView, out: Set<u64>, now: u64, f: FlowView, delay: u64)
    requires
        placed_but(s, out, None),
        out.contains(f.id.0),
    ensures
        placed_but(
            SharedView { timer: s.timer.slept(now, delay, f), ..s },
            out.remove(f.id.0),
            None,
        ),
{
    let deadline = due_at(now, delay);
    slot_bounds(s.timer.entries, deadline, s.timer.entries.len());
    timer_inserted(
        s,
        SharedView { timer: s.timer.slept(now, delay, f), ..s },
        out,
        None,
        slot(s.timer.entries, deadline, s.timer.entries.len()) as int,
        TimerEntryView { deadline, payload: PayloadView::WakeSleeper(f) },
    );
}

/// Whatever a flow in hand stops for, it is where it belongs afterwards, and no
/// other flow that is out is moved.
pub proof fn applying_is_placed(
    s: SharedView,
    out: Set<u64>,
    ids: IdsView,
    now: u64,
    flow: FlowView,
    r: VmResultView,
)
    requires
        s.directory.dom().finite(),
        placed_but(s, out, None),
        out.contains(flow.id.0),
        !s.alive(FlowId(ids.flow)),
    ensures
        settled_in(applied(s, ids, now, flow, r), out, flow.id),
{
    let f = FlowView {
        metrics: FlowMetrics { instructions: flow.vm.executed, ..flow.metrics },
        ..flow
    };
    let t = applied(s, ids, now, flow, r).0;
    match r {
        VmResultView::Complete(v) => finishing_is_placed(
            s,
            out,
            f,
            OutcomeView::Completed(v),
            FlowExitReason::Normal,
        ),
        VmResultView::Trap(fault) => failing_is_placed(s, out, f),
        VmResultView::Yield => made_ready_from_hand(
            s,
            t,
            out,
            None,
            Lane::Local,
            t.ready.last().1,
        ),
        VmResultView::Sleep(delay) => sleeper_is_placed(s, out, now, f, delay),
        VmResultView::SelfPid { dest_reg } => unmoved(s, t, out, None),
        VmResultView::Spawn { function, args, dest_reg, requested_rights } => parent_is_placed(
            s,
            out,
            ids,
            f,
            function,
            args,
            dest_reg,
            requested_rights,
        ),
        VmResultView::Send { target_cap, message } => sender_is_placed(
            s,
            out,
            ids,
            f,
            target_cap,
            message,
        ),
        VmResultView::Receive { dest_reg, timeout, match_tag } => receiver_is_placed(
            s,
            out,
            now,
            f,
            dest_reg,
            timeout,
            match_tag,
        ),
        VmResultView::Ask { dest_reg, target_cap, request, timeout } => asker_is_placed(
            s,
            out,
            ids,
            now,
            f,
            dest_reg,
            target_cap,
            request,
            timeout,
        ),
        VmResultView::Native { native, args, dest_reg } => failing_is_placed(s, out, f),
        VmResultView::Float { op, lhs, rhs, dest_reg } => failing_is_placed(s, out, f),
        _ => relation_is_placed(s, out, ids, f, r),
    }
}

} // verus!
