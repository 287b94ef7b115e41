//! Who waits for a reply, waits for a flow that is alive and is listed with it.

use vstd::prelude::*;

use super::capability::CapRights;
use super::endings::{extracting_touches, waking_touches};
use super::link::LinkId;
use super::mailbox::{MailboxView, WaitFilter};
use super::model::{
    after_ask, after_delegate, after_demonitor, after_link, after_monitor, after_receive,
    after_send, after_spawn, after_unlink, all_finalized, applied, begun, cap_target_for,
    child_gate, delivered, down_delivered, downs_delivered, extracted, failed, finalizing_shrinks,
    finished, fired, forgotten, kill_requested, links_collected, links_cut, mailbox_closed,
    monitors_told, one_finalized, orphan_woken, orphans_released, orphans_woken, parked_for_reply,
    parked_for_room, parked_on_mailbox, room_given, sent_counted, spawned, stamped, unmarked, Lane,
    PendingView, SharedView,
};
use super::monitor::{DownEvent, FlowExitReason};
use super::moves::{
    delivering_is_placed, ending_is_placed, extracting_is_placed, filling_is_placed,
};
use super::order::ending_is_kept;
use super::places::{
    distinct, hand_add, hand_of, hand_pop, hand_push, held, parked_at_home, placed_but, unmoved,
    waiting_to_hand,
};
use super::process::{
    FlowId, FlowMetrics, FlowView, IdsView, OutcomeView, PendingSend, RestartPolicy,
};
use super::runtime::host_sent;
use super::timer::{PayloadView, TimerEntryView};
use super::waits::{detaching_keeps_agreement, found, releasing_is_exact};
use crate::bytecode::chunk::Chunk;
use crate::bytecode::value::{Message, Value};
use crate::vm::native::NativeFn;
use crate::vm::result::VmResultView;

verus! {

/// Whose reply flow `x` waits for, by the index of those who ask.
pub open spec fn asked(s: SharedView, x: u64) -> Option<u64> {
    found(s.asks.by_asker, x)
}

/// Whose reply flow `x` waits for, by its mailbox.
pub open spec fn awaited(s: SharedView, x: u64) -> Option<u64> {
    if s.alive(FlowId(x)) && s.directory[x].parked is Some {
        match s.directory[x].filter {
            WaitFilter::Correlation { expect_request_id, expect_sender } => expect_sender,
            _ => None,
        }
    } else {
        None
    }
}

/// The index and the mailboxes say the same of who waits for whose reply, but
/// for the flows of `busy`, and each of the awaited is alive.
pub open spec fn replies_agree_but(s: SharedView, busy: Set<u64>) -> bool {
    forall|x: u64|
        #![trigger asked(s, x)]
        (busy.contains(x) || asked(s, x) == awaited(s, x)) && (asked(s, x) matches Some(t)
            ==> s.alive(FlowId(t)))
}

/// The index and the mailboxes say the same of who waits for whose reply, and
/// each of the awaited is alive.
pub open spec fn replies_agree(s: SharedView) -> bool {
    replies_agree_but(s, Set::empty())
}

/// What a step that ends no flow may do to the waits of flow `x`.
spec fn carried(s: SharedView, t: SharedView, busy: Set<u64>, later: Set<u64>, x: u64) -> bool {
    ||| asked(t, x) == asked(s, x) && awaited(t, x) == awaited(s, x) && (busy.contains(x)
        ==> later.contains(x))
    ||| asked(t, x) is None && awaited(t, x) is None
    ||| asked(t, x) == asked(s, x) && later.contains(x)
    ||| asked(t, x) == awaited(t, x) && (asked(t, x) matches Some(y) ==> t.alive(FlowId(y)))
}

proof fn carrying_agrees(s: SharedView, t: SharedView, busy: Set<u64>, later: Set<u64>)
    requires
        replies_agree_but(s, busy),
        forall|x: u64| #[trigger] s.directory.dom().contains(x) ==> t.directory.dom().contains(x),
        forall|x: u64| #[trigger] carried(s, t, busy, later, x),
    ensures
        replies_agree_but(t, later),
{
    assert forall|x: u64| #![trigger asked(t, x)]
        (later.contains(x) || asked(t, x) == awaited(t, x)) && (asked(t, x) matches Some(y)
            ==> t.alive(FlowId(y))) by {
        assert(carried(s, t, busy, later, x));
        assert(asked(s, x) == asked(s, x));
    }
}

/// Who waits for whom is untouched.
pub open spec fn same_waits(s: SharedView, t: SharedView) -> bool {
    t.directory == s.directory && t.asks == s.asks
}

/// Where nothing was touched, the waits agree as before.
pub proof fn untouched_agrees(s: SharedView, t: SharedView, busy: Set<u64>)
    requires
        replies_agree_but(s, busy),
        same_waits(s, t),
    ensures
        replies_agree_but(t, busy),
{
    assert forall|x: u64| #[trigger] carried(s, t, busy, busy, x) by {}
    carrying_agrees(s, t, busy, busy);
}

/// The owner of a mailbox no longer waits, and the index knows.
pub proof fn waking_agrees(s: SharedView, t: SharedView, busy: Set<u64>, id: FlowId, m: MailboxView)
    requires
        replies_agree_but(s, busy),
        t.directory == s.directory.insert(id.0, m),
        t.asks == s.asks.detached(id.0),
        m.parked is None,
    ensures
        replies_agree_but(t, busy),
{
    assert forall|x: u64| #[trigger] carried(s, t, busy, busy, x) by {}
    carrying_agrees(s, t, busy, busy);
}

/// A mailbox changed, but not what its owner waits for.
pub proof fn filling_agrees(s: SharedView, t: SharedView, busy: Set<u64>, id: FlowId, m: MailboxView)
    requires
        replies_agree_but(s, busy),
        s.alive(id),
        t.directory == s.directory.insert(id.0, m),
        t.asks == s.asks,
        m.parked is Some <==> s.directory[id.0].parked is Some,
        m.parked is Some ==> m.filter == s.directory[id.0].filter,
    ensures
        replies_agree_but(t, busy),
{
    assert forall|x: u64| #[trigger] carried(s, t, busy, busy, x) by {}
    carrying_agrees(s, t, busy, busy);
}

// ---- the end of a flow --------------------------------------------------

/// Waking askers ends their waits and no other.
proof fn orphans_wait_no_more(s: SharedView, askers: Seq<u64>, hop: Value, n: nat, x: u64)
    requires
        n <= askers.len(),
    ensures
        ({
            let t = orphans_woken(s, askers, hop, n);
            &&& (exists|i: int| 0 <= i < n && askers[i] == x) ==> awaited(t, x) is None
            &&& !(exists|i: int| 0 <= i < n && askers[i] == x) ==> awaited(t, x) == awaited(s, x)
            &&& s.directory.dom().contains(x) ==> t.directory[x].parked is None
                || t.directory[x].parked == s.directory[x].parked
        }),
    decreases n,
{
    if n > 0 {
        orphans_wait_no_more(s, askers, hop, (n - 1) as nat, x);
        waking_touches(s, askers, hop, (n - 1) as nat);
        let u = orphans_woken(s, askers, hop, (n - 1) as nat);
        let t = orphan_woken(u, FlowId(askers[n - 1]), hop);
        assert(t.directory.dom() =~= u.directory.dom());
        if exists|i: int| 0 <= i < n && askers[i] == x {
            let i = choose|i: int| 0 <= i < n && askers[i] == x;
            if i < n - 1 {
                assert(askers[i] == x);
            }
        }
    }
}

proof fn downs_agree(s: SharedView, busy: Set<u64>, events: Seq<DownEvent>, n: nat)
    requires
        replies_agree_but(s, busy),
        parked_at_home(s),
    ensures
        replies_agree_but(downs_delivered(s, events, n), busy),
        parked_at_home(downs_delivered(s, events, n)),
    decreases n,
{
    if n > 0 {
        downs_agree(s, busy, events, (n - 1) as nat);
        let u = downs_delivered(s, events, (n - 1) as nat);
        let e = events[n - 1];
        let t = down_delivered(u, e);
        let hop = Value::Message(Message::down_spec(e.monitor.0, e.target.0, e.reason.code()));
        if u.alive(e.owner) {
            let after = u.directory[e.owner.0].pushed_system(hop).0;
            if u.directory[e.owner.0].wants(hop) {
                waking_agrees(u, t, busy, e.owner, after);
            } else {
                filling_agrees(u, t, busy, e.owner, after);
            }
        }
    }
}

proof fn found_sender_has_the_id(m: MailboxView, id: FlowId, i: nat)
    ensures
        m.sender_index(id, i) < m.waiting.len() ==> m.waiting[m.sender_index(
            id,
            i,
        ) as int].0.id == id,
    decreases m.waiting.len() - i,
{
    if i < m.waiting.len() && m.waiting[i as int].0.id != id {
        found_sender_has_the_id(m, id, i + 1);
    }
}

/// A flow that is taken out of where it waits is busy until it has ended.
proof fn extracting_agrees(s: SharedView, busy: Set<u64>, id: FlowId, reason: FlowExitReason)
    requires
        replies_agree_but(s, busy),
        parked_at_home(s),
    ensures
        ({
            let (t, taken) = extracted(s, id, reason);
            &&& parked_at_home(t)
            &&& taken matches Some(f) ==> f.id == id && replies_agree_but(t, busy.insert(id.0))
            &&& taken is None ==> replies_agree_but(t, busy)
        }),
{
    let (t, taken) = extracted(s, id, reason);
    let later = if taken is Some {
        busy.insert(id.0)
    } else {
        busy
    };
    if s.alive(id) {
        let u = s.with_mailbox(id, s.directory[id.0].unparked());
        if s.waiting_send.dom().contains(id.0) {
            found_sender_has_the_id(u.directory[s.waiting_send[id.0]], id, 0);
        }
    }
    assert forall|x: u64| #[trigger] carried(s, t, busy, later, x) by {}
    carrying_agrees(s, t, busy, later);
}

proof fn links_agree(s: SharedView, busy: Set<u64>, peers: Seq<(LinkId, FlowId)>, n: nat)
    requires
        replies_agree_but(s, busy),
        parked_at_home(s),
    ensures
        ({
            let (t, work) = links_collected(s, peers, n);
            replies_agree_but(t, hand_of(busy, work)) && parked_at_home(t)
        }),
    decreases n,
{
    if n == 0 {
        assert(hand_of(busy, Seq::empty()) =~= busy);
    } else {
        links_agree(s, busy, peers, (n - 1) as nat);
        let (u, work) = links_collected(s, peers, (n - 1) as nat);
        extracting_agrees(u, hand_of(busy, work), peers[n - 1].1, FlowExitReason::Link);
        match extracted(u, peers[n - 1].1, FlowExitReason::Link).1 {
            None => {},
            Some(flow) => hand_push(
                busy,
                work,
                PendingView {
                    flow,
                    outcome: OutcomeView::Failed("linked exit (link)"@),
                    reason: FlowExitReason::Link,
                },
            ),
        }
    }
}

/// From the closed mailbox of a flow to a state without the flow: all who
/// waited for its reply go on.
proof fn leaving_agrees(s: SharedView, busy: Set<u64>, id: FlowId, reason: FlowExitReason)
    requires
        replies_agree_but(s, busy),
        parked_at_home(s),
        s.asks.consistent(),
        asked(s, id.0) is None,
    ensures
        replies_agree_but(forgotten(orphans_released(s, id, reason), id), busy),
        parked_at_home(forgotten(orphans_released(s, id, reason), id)),
{
    let askers = s.asks.waiters(id.0);
    let hop = Value::Message(Message::linked_exit_spec(id.0, reason.code()));
    let free = SharedView { asks: s.asks.released(id.0), ..s };
    let u = orphans_released(s, id, reason);
    let t = forgotten(u, id);
    waking_touches(free, askers, hop, askers.len());
    assert forall|x: u64| #![trigger asked(t, x)]
        (busy.contains(x) || asked(t, x) == awaited(t, x)) && (asked(t, x) matches Some(y)
            ==> t.alive(FlowId(y))) by {
        assert(asked(s, x) == asked(s, x));
        releasing_is_exact(s.asks, id.0, x);
        orphans_wait_no_more(free, askers, hop, askers.len(), x);
        assert(askers.contains(x) <==> exists|i: int| 0 <= i < askers.len() && askers[i] == x);
    }
    assert forall|x: u64| #[trigger] t.directory.dom().contains(x) implies (
    t.directory[x].parked matches Some(f) ==> f.id.0 == x) by {
        assert(s.directory.dom().contains(x));
        orphans_wait_no_more(free, askers, hop, askers.len(), x);
    }
}

/// One flow ends; those that have to end with it are busy.
proof fn ending_agrees(s: SharedView, out: Set<u64>, busy: Set<u64>, p: PendingView)
    requires
        placed_but(s, out, None),
        out.contains(p.flow.id.0),
        s.asks.consistent(),
        replies_agree_but(s, busy),
    ensures
        ({
            let (t, more) = one_finalized(s, p);
            replies_agree_but(t, hand_of(busy.remove(p.flow.id.0), more))
        }),
{
    let id = p.flow.id;
    let rest = busy.remove(id.0);
    let u = unmarked(s, id);
    assert(held(s, id.0) == 0);
    assert forall|x: u64| #[trigger] carried(s, u, busy, rest, x) by {}
    carrying_agrees(s, u, busy, rest);
    detaching_keeps_agreement(s.asks, id.0);
    let (closed, senders) = mailbox_closed(u, id);
    assert forall|x: u64| #[trigger] carried(u, closed, rest, rest, x) by {}
    carrying_agrees(u, closed, rest, rest);
    leaving_agrees(closed, rest, id, p.reason);
    let gone = forgotten(orphans_released(closed, id, p.reason), id);
    let events = gone.monitors.downs(id, p.reason);
    let quiet = SharedView { monitors: gone.monitors.without_target(id), ..gone };
    untouched_agrees(gone, quiet, rest);
    downs_agree(quiet, rest, events, events.len());
    let told = monitors_told(gone, id, p.reason);
    let now = hand_of(rest, senders);
    assert forall|x: u64| #[trigger] carried(told, told, rest, now, x) by {}
    carrying_agrees(told, told, rest, now);
    let peers = told.links.peers(id);
    let cut = SharedView { links: told.links.without(id), ..told };
    untouched_agrees(told, cut, now);
    links_agree(cut, now, peers, peers.len());
    let (t, more) = links_cut(told, id, p.reason);
    assert(hand_of(now, Seq::empty()) =~= now);
    untouched_agrees(t, one_finalized(s, p).0, hand_of(now, more));
    hand_add(rest, senders, more);
}

proof fn endings_agree(s: SharedView, out: Set<u64>, work: Seq<PendingView>)
    requires
        s.directory.dom().finite(),
        placed_but(s, hand_of(out, work), None),
        distinct(out, work),
        s.asks.consistent(),
        replies_agree_but(s, hand_of(Set::empty(), work)),
    ensures
        replies_agree(all_finalized(s, work)),
    decreases s.directory.dom().len(), s.links.entries.len(), work.len(),
{
    let none = Set::<u64>::empty();
    if work.len() == 0 {
        assert(hand_of(none, work) =~= none);
    } else {
        let p = work.last();
        let (u, more) = one_finalized(s, p);
        finalizing_shrinks(s, p);
        hand_pop(out, work);
        ending_is_placed(s, hand_of(out, work), p);
        hand_add(out, work.drop_last(), more);
        assert(distinct(none, work));
        hand_pop(none, work);
        ending_agrees(s, hand_of(out, work), hand_of(none, work), p);
        hand_add(none, work.drop_last(), more);
        ending_is_kept(s, p);
        endings_agree(u, out, work.drop_last() + more);
    }
}

/// When a flow in hand ends, the waits agree again once all have ended that end
/// with it. It may be listed as waiting until then.
pub proof fn finishing_agrees(
    s: SharedView,
    out: Set<u64>,
    flow: FlowView,
    outcome: OutcomeView,
    reason: FlowExitReason,
)
    requires
        s.directory.dom().finite(),
        placed_but(s, out, None),
        out.contains(flow.id.0),
        s.asks.consistent(),
        replies_agree_but(s, set![flow.id.0]),
    ensures
        replies_agree(finished(s, flow, outcome, reason)),
{
    let rest = out.remove(flow.id.0);
    let work = seq![PendingView { flow, outcome, reason }];
    assert(work[0].flow.id == flow.id);
    assert(hand_of(rest, work) =~= out);
    assert(hand_of(Set::empty(), work) =~= set![flow.id.0]);
    endings_agree(s, rest, work);
}

// ---- messages -----------------------------------------------------------

/// A flow in hand waits for no reply.
proof fn flow_in_hand_waits_for_none(s: SharedView, out: Set<u64>, id: FlowId)
    requires
        placed_but(s, out, None),
        replies_agree(s),
        out.contains(id.0),
    ensures
        s.alive(id),
        s.directory[id.0].parked is None,
        asked(s, id.0) is None,
        awaited(s, id.0) is None,
{
    assert(held(s, id.0) == 0);
    assert(asked(s, id.0) == awaited(s, id.0));
}

proof fn delivering_agrees(s: SharedView, lane: Lane, target: FlowId, v: Value)
    requires
        replies_agree(s),
        parked_at_home(s),
    ensures
        replies_agree(delivered(s, lane, target, v).0),
{
    if s.alive(target) {
        let m = s.directory[target.0];
        let after = m.pushed(v).0;
        let t = delivered(s, lane, target, v).0;
        if m.wants(v) {
            waking_agrees(s, t, Set::empty(), target, after);
        } else {
            filling_agrees(s, t, Set::empty(), target, after);
        }
    }
}

/// A flow in hand begins to wait for a message that is no reply.
proof fn parking_agrees(
    s: SharedView,
    out: Set<u64>,
    now: u64,
    flow: FlowView,
    dest_reg: u8,
    timeout: Option<u64>,
    filter: WaitFilter,
)
    requires
        placed_but(s, out, None),
        replies_agree(s),
        out.contains(flow.id.0),
        !(filter is Correlation),
    ensures
        replies_agree(parked_on_mailbox(s, now, flow, dest_reg, timeout, filter)),
{
    let none = Set::<u64>::empty();
    flow_in_hand_waits_for_none(s, out, flow.id);
    let t = parked_on_mailbox(s, now, flow, dest_reg, timeout, filter);
    assert forall|x: u64| #[trigger] carried(s, t, none, none, x) by {}
    carrying_agrees(s, t, none, none);
}

/// A flow in hand begins to wait for a reply, if the one that it waits for is
/// alive.
proof fn asking_agrees(
    s: SharedView,
    out: Set<u64>,
    now: u64,
    flow: FlowView,
    dest_reg: u8,
    timeout: Option<u64>,
    request_id: u64,
    target: FlowId,
)
    requires
        placed_but(s, out, None),
        replies_agree(s),
        out.contains(flow.id.0),
    ensures
        replies_agree(
            parked_for_reply(
                s,
                now,
                flow,
                dest_reg,
                timeout,
                WaitFilter::Correlation {
                    expect_request_id: request_id,
                    expect_sender: Some(target.0),
                },
                target,
            ),
        ),
{
    let none = Set::<u64>::empty();
    let filter = WaitFilter::Correlation {
        expect_request_id: request_id,
        expect_sender: Some(target.0),
    };
    flow_in_hand_waits_for_none(s, out, flow.id);
    let t = parked_for_reply(s, now, flow, dest_reg, timeout, filter, target);
    assert forall|x: u64| #[trigger] carried(s, t, none, none, x) by {}
    carrying_agrees(s, t, none, none);
}

proof fn queueing_agrees(
    s: SharedView,
    out: Set<u64>,
    flow: FlowView,
    target: FlowId,
    v: Value,
    pending: PendingSend,
)
    requires
        placed_but(s, out, None),
        replies_agree(s),
        s.alive(target),
    ensures
        replies_agree(parked_for_room(s, flow, target, v, pending)),
{
    let t = parked_for_room(s, flow, target, v, pending);
    assert(!s.directory[target.0].closed);
    filling_agrees(s, t, Set::empty(), target, t.directory[target.0]);
}

proof fn admitting_agrees(s: SharedView, out: Set<u64>, now: u64, lane: Lane, owner: FlowId)
    requires
        placed_but(s, out, None),
        replies_agree(s),
    ensures
        replies_agree(room_given(s, now, lane, owner)),
{
    let none = Set::<u64>::empty();
    if s.alive(owner) {
        let m = s.directory[owner.0];
        let (after, sender) = m.admitted();
        let t = room_given(s, now, lane, owner);
        match sender {
            None => filling_agrees(s, t, none, owner, after),
            Some(sender) => {
                let u = SharedView {
                    waiting_send: s.waiting_send.remove(sender.id.0),
                    ..s.with_mailbox(owner, after)
                };
                filling_agrees(s, u, none, owner, after);
                assert(m.waiting.skip(1) =~= m.waiting.remove(0));
                waiting_to_hand(s, u, out, None, owner, 0, after);
                match sender.pending_send {
                    Some(
                        PendingSend::Ask { dest_reg, expect_request_id, expect_sender, timeout },
                    ) => asking_agrees(
                        u,
                        out.insert(sender.id.0),
                        now,
                        FlowView { pending_send: None, ..sender },
                        dest_reg,
                        timeout,
                        expect_request_id,
                        FlowId(expect_sender),
                    ),
                    _ => untouched_agrees(u, t, none),
                }
            },
        }
    }
}

// ---- the steps ----------------------------------------------------------

proof fn failing_agrees(s: SharedView, out: Set<u64>, flow: FlowView)
    requires
        s.directory.dom().finite(),
        s.asks.consistent(),
        placed_but(s, out, None),
        replies_agree(s),
        out.contains(flow.id.0),
    ensures
        forall|text: Seq<char>| replies_agree(#[trigger] failed(s, flow, text)),
{
    assert forall|text: Seq<char>| replies_agree(#[trigger] failed(s, flow, text)) by {
        ending_in_hand_agrees(s, out, flow, OutcomeView::Failed(text), FlowExitReason::Fault);
    }
}

proof fn ending_in_hand_agrees(
    s: SharedView,
    out: Set<u64>,
    flow: FlowView,
    outcome: OutcomeView,
    reason: FlowExitReason,
)
    requires
        s.directory.dom().finite(),
        s.asks.consistent(),
        placed_but(s, out, None),
        replies_agree(s),
        out.contains(flow.id.0),
    ensures
        replies_agree(finished(s, flow, outcome, reason)),
{
    let none = Set::<u64>::empty();
    assert forall|x: u64| #[trigger] carried(s, s, none, set![flow.id.0], x) by {}
    carrying_agrees(s, s, none, set![flow.id.0]);
    finishing_agrees(s, out, flow, outcome, reason);
}

proof fn sender_agrees(
    s: SharedView,
    out: Set<u64>,
    ids: IdsView,
    flow: FlowView,
    target_cap: u64,
    message: Value,
)
    requires
        s.directory.dom().finite(),
        s.asks.consistent(),
        placed_but(s, out, None),
        replies_agree(s),
        out.contains(flow.id.0),
    ensures
        replies_agree(after_send(s, ids, flow, target_cap, message).0),
{
    failing_agrees(s, out, flow);
    match (message.spec_as_message(), cap_target_for(s, target_cap, CapRights::send())) {
        (Some(m), Ok(target)) => {
            let (t, hop) = stamped(s, ids, flow.id, m);
            let v = Value::Message(hop);
            unmoved(s, sent_counted(t), out, None);
            untouched_agrees(s, sent_counted(t), Set::empty());
            delivering_is_placed(sent_counted(t), out, Lane::Local, target, v);
            delivering_agrees(sent_counted(t), Lane::Local, target, v);
            let (u, full) = delivered(sent_counted(t), Lane::Local, target, v);
            if full is Some {
                queueing_agrees(
                    u,
                    out,
                    flow.counted_sent(),
                    target,
                    v,
                    PendingSend::FireAndForget,
                );
            }
        },
        _ => {},
    }
}

proof fn receiver_agrees(
    s: SharedView,
    out: Set<u64>,
    now: u64,
    flow: FlowView,
    dest_reg: u8,
    timeout: Option<u64>,
    match_tag: Option<u16>,
)
    requires
        placed_but(s, out, None),
        replies_agree(s),
        out.contains(flow.id.0),
    ensures
        replies_agree(after_receive(s, now, flow, dest_reg, timeout, match_tag).0),
{
    flow_in_hand_waits_for_none(s, out, flow.id);
    let f = FlowView { last_receive_dest: Some(dest_reg), ..flow };
    let filter = match match_tag {
        None => WaitFilter::Any,
        Some(tag) => WaitFilter::Tag(tag),
    };
    match s.directory[f.id.0].popped(filter) {
        (after, Some(v)) => {
            let u = s.with_mailbox(f.id, after);
            filling_is_placed(s, u, out, None, f.id, after);
            filling_agrees(s, u, Set::empty(), f.id, after);
            admitting_agrees(u, out, now, Lane::Local, f.id);
        },
        (_, None) => parking_agrees(s, out, now, f, dest_reg, timeout, filter),
    }
}

proof fn asker_agrees(
    s: SharedView,
    out: Set<u64>,
    ids: IdsView,
    now: u64,
    flow: FlowView,
    dest_reg: u8,
    target_cap: u64,
    request: Value,
    timeout: Option<u64>,
)
    requires
        s.directory.dom().finite(),
        s.asks.consistent(),
        placed_but(s, out, None),
        replies_agree(s),
        out.contains(flow.id.0),
    ensures
        replies_agree(after_ask(s, ids, now, flow, dest_reg, target_cap, request, timeout).0),
{
    failing_agrees(s, out, flow);
    match (request.spec_as_message(), cap_target_for(s, target_cap, CapRights::ask())) {
        (Some(m), Ok(target)) => {
            let (t, hop) = stamped(s, ids, flow.id, m);
            let v = Value::Message(hop);
            let f = FlowView { last_receive_dest: Some(dest_reg), ..flow }.counted_sent();
            let filter = WaitFilter::Correlation {
                expect_request_id: hop.request_id,
                expect_sender: Some(target.0),
            };
            unmoved(s, sent_counted(t), out, None);
            untouched_agrees(s, sent_counted(t), Set::empty());
            delivering_is_placed(sent_counted(t), out, Lane::Local, target, v);
            delivering_agrees(sent_counted(t), Lane::Local, target, v);
            let (u, full) = delivered(sent_counted(t), Lane::Local, target, v);
            if full is Some {
                queueing_agrees(
                    u,
                    out,
                    f,
                    target,
                    v,
                    PendingSend::Ask {
                        dest_reg,
                        expect_request_id: hop.request_id,
                        expect_sender: target.0,
                        timeout,
                    },
                );
            } else {
                flow_in_hand_waits_for_none(u, out, f.id);
                let (after, found) = u.directory[f.id.0].popped(filter);
                match found {
                    Some(v) => filling_agrees(
                        u,
                        u.with_mailbox(f.id, after),
                        Set::empty(),
                        f.id,
                        after,
                    ),
                    None => asking_agrees(
                        u,
                        out,
                        now,
                        f,
                        dest_reg,
                        timeout,
                        hop.request_id,
                        target,
                    ),
                }
            }
        },
        _ => {},
    }
}

/// A new flow waits for no reply.
pub proof fn spawning_agrees(
    s: SharedView,
    ids: IdsView,
    chunk: Chunk,
    natives: Seq<Option<(Seq<char>, NativeFn)>>,
    gate: Seq<bool>,
    function: u32,
    args: Seq<Value>,
    restart_policy: RestartPolicy,
    supervisor: Option<u64>,
)
    requires
        replies_agree(s),
        !s.alive(FlowId(ids.flow)),
    ensures
        replies_agree(
            spawned(s, ids, chunk, natives, gate, function, args, restart_policy, supervisor).0,
        ),
{
    let none = Set::<u64>::empty();
    let (t, r) = spawned(s, ids, chunk, natives, gate, function, args, restart_policy, supervisor);
    if r is Ok {
        assert forall|x: u64| #[trigger] carried(s, t, none, none, x) by {}
        carrying_agrees(s, t, none, none);
    }
}

/// A deadline ends the wait that it is for, if that still lasts.
pub proof fn firing_agrees(s: SharedView, e: TimerEntryView)
    requires
        replies_agree(s),
        parked_at_home(s),
    ensures
        replies_agree(fired(s, e)),
{
    let none = Set::<u64>::empty();
    let t = fired(s, e);
    match e.payload {
        PayloadView::WakeSleeper(f) => untouched_agrees(s, t, none),
        PayloadView::WakeReceiver { pid, dest_reg, epoch } => {
            if s.alive(pid) && s.directory[pid.0].epoch == epoch {
                let m = s.directory[pid.0];
                match m.parked {
                    None => filling_agrees(s, t, none, pid, m.unparked()),
                    Some(f) => waking_agrees(s, t, none, pid, m.unparked()),
                }
            }
        },
    }
}

/// A message of the host ends at most the wait that it is for.
pub proof fn host_message_agrees(s: SharedView, target: FlowId, message: Value)
    requires
        replies_agree(s),
        parked_at_home(s),
    ensures
        replies_agree(host_sent(s, target, message).0),
{
    if message.spec_as_message() is Some && s.alive(target) {
        let m = s.directory[target.0];
        let after = m.pushed(message).0;
        let t = host_sent(s, target, message).0;
        if m.wants(message) {
            waking_agrees(s, t, Set::empty(), target, after);
        } else {
            filling_agrees(s, t, Set::empty(), target, after);
        }
    }
}

/// A flow that is killed waits for nobody.
pub proof fn killing_agrees(s: SharedView, out: Set<u64>, id: FlowId, reason: FlowExitReason)
    requires
        s.directory.dom().finite(),
        s.asks.consistent(),
        placed_but(s, out, None),
        replies_agree(s),
    ensures
        replies_agree(kill_requested(s, id, reason)),
{
    extracting_is_placed(s, out, id, reason);
    extracting_agrees(s, Set::empty(), id, reason);
    extracting_touches(s, id, reason);
    let (t, taken) = extracted(s, id, reason);
    match taken {
        None => {},
        Some(flow) => {
            assert(Set::<u64>::empty().insert(id.0) =~= set![id.0]);
            finishing_agrees(
                t,
                out.insert(id.0),
                flow,
                OutcomeView::Failed("killed ("@ + reason.spec_text()@ + ")"@),
                reason,
            );
        },
    }
}

/// A flow that gets a worker waits for nobody.
pub proof fn beginning_agrees(s: SharedView, out: Set<u64>, flow: FlowView)
    requires
        s.directory.dom().finite(),
        s.asks.consistent(),
        placed_but(s, out, None),
        replies_agree(s),
        out.contains(flow.id.0),
    ensures
        replies_agree(begun(s, flow).0),
{
    let f = match flow.pending_message {
        Some(v) => FlowView { pending_message: None, ..flow }.received(v),
        None => flow,
    };
    let t = SharedView { kills: s.kills.remove(f.id.0), ..s };
    unmoved(s, t, out, None);
    untouched_agrees(s, t, Set::empty());
    match found(s.kills, f.id.0) {
        None => {},
        Some(reason) => ending_in_hand_agrees(
            t,
            out,
            f,
            OutcomeView::Failed("linked exit ("@ + reason.spec_text()@ + ")"@),
            reason,
        ),
    }
}

proof fn parent_agrees(
    s: SharedView,
    out: Set<u64>,
    ids: IdsView,
    f: FlowView,
    function: u32,
    args: Seq<Value>,
    dest_reg: u8,
    requested: CapRights,
)
    requires
        s.directory.dom().finite(),
        s.asks.consistent(),
        placed_but(s, out, None),
        replies_agree(s),
        out.contains(f.id.0),
        !s.alive(FlowId(ids.flow)),
    ensures
        replies_agree(after_spawn(s, ids, f, function, args, dest_reg, requested).0),
{
    let gate = child_gate(f.vm, requested);
    let (chunk, natives, policy) = (f.vm.chunk, f.vm.natives, f.restart_policy);
    spawning_agrees(s, ids, chunk, natives, gate, function, args, policy, None);
    let (u, outcome) = spawned(s, ids, chunk, natives, gate, function, args, policy, None);
    let t = after_spawn(s, ids, f, function, args, dest_reg, requested).0;
    match outcome {
        Ok(_) => untouched_agrees(u, t, Set::empty()),
        Err(_) => failing_agrees(s, out, f),
    }
}

proof fn relation_agrees(s: SharedView, out: Set<u64>, ids: IdsView, f: FlowView, r: VmResultView)
    requires
        s.directory.dom().finite(),
        s.asks.consistent(),
        placed_but(s, out, None),
        replies_agree(s),
        out.contains(f.id.0),
    ensures
        match r {
            VmResultView::Monitor { dest_reg, target_cap } => replies_agree(
                after_monitor(s, f, dest_reg, target_cap).0,
            ),
            VmResultView::Demonitor { monitor_reg } => replies_agree(
                after_demonitor(s, f, monitor_reg).0,
            ),
            VmResultView::Link { dest_reg, target_cap } => replies_agree(
                after_link(s, f, dest_reg, target_cap).0,
            ),
            VmResultView::Unlink { link_reg } => replies_agree(after_unlink(s, f, link_reg).0),
            VmResultView::Delegate { dest_reg, src_cap, want_rights, want_native_cap } =>
                replies_agree(
                after_delegate(s, ids, f, dest_reg, src_cap, want_rights, want_native_cap).0,
            ),
            _ => true,
        },
{
    failing_agrees(s, out, f);
    let next = match r {
        VmResultView::Monitor { dest_reg, target_cap } => after_monitor(s, f, dest_reg, target_cap),
        VmResultView::Demonitor { monitor_reg } => after_demonitor(s, f, monitor_reg),
        VmResultView::Link { dest_reg, target_cap } => after_link(s, f, dest_reg, target_cap),
        VmResultView::Unlink { link_reg } => after_unlink(s, f, link_reg),
        VmResultView::Delegate { dest_reg, src_cap, want_rights, want_native_cap } =>
            after_delegate(s, ids, f, dest_reg, src_cap, want_rights, want_native_cap),
        _ => (s, Some(f)),
    };
    if next.1 is Some {
        untouched_agrees(s, next.0, Set::empty());
    }
}

/// Whatever a flow in hand stops for, who waits for whose reply is known
/// afterwards.
pub proof fn applying_agrees(
    s: SharedView,
    out: Set<u64>,
    ids: IdsView,
    now: u64,
    flow: FlowView,
    r: VmResultView,
)
    requires
        s.directory.dom().finite(),
        s.asks.consistent(),
        placed_but(s, out, None),
        replies_agree(s),
        out.contains(flow.id.0),
        !s.alive(FlowId(ids.flow)),
    ensures
        replies_agree(applied(s, ids, now, flow, r).0),
{
    let f = FlowView {
        metrics: FlowMetrics { instructions: flow.vm.executed, ..flow.metrics },
        ..flow
    };
    let t = applied(s, ids, now, flow, r).0;
    match r {
        VmResultView::Complete(v) => ending_in_hand_agrees(
            s,
            out,
            f,
            OutcomeView::Completed(v),
            FlowExitReason::Normal,
        ),
        VmResultView::Yield => untouched_agrees(s, t, Set::empty()),
        VmResultView::Sleep(delay) => untouched_agrees(s, t, Set::empty()),
        VmResultView::SelfPid { dest_reg } => untouched_agrees(s, t, Set::empty()),
        VmResultView::Spawn { function, args, dest_reg, requested_rights } => parent_agrees(
            s,
            out,
            ids,
            f,
            function,
            args,
            dest_reg,
            requested_rights,
        ),
        VmResultView::Send { target_cap, message } => sender_agrees(
            s,
            out,
            ids,
            f,
            target_cap,
            message,
        ),
        VmResultView::Receive { dest_reg, timeout, match_tag } => receiver_agrees(
            s,
            out,
            now,
            f,
            dest_reg,
            timeout,
            match_tag,
        ),
        VmResultView::Ask { dest_reg, target_cap, request, timeout } => asker_agrees(
            s,
            out,
            ids,
            now,
            f,
            dest_reg,
            target_cap,
            request,
            timeout,
        ),
        VmResultView::Trap(fault) => failing_agrees(s, out, f),
        VmResultView::Native { native, args, dest_reg } => failing_agrees(s, out, f),
        VmResultView::Float { op, lhs, rhs, dest_reg } => failing_agrees(s, out, f),
        _ => relation_agrees(s, out, ids, f, r),
    }
}

} // verus!
