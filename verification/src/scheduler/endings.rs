//! What holds when flows end.

use vstd::prelude::*;

use super::link::{LinkEntry, LinkId};
use super::model::{
    all_finalized, begun, down_delivered, downs_delivered, extracted, finalizing_shrinks, finished,
    forgotten, kill_requested, links_collected, links_cut, mailbox_closed, monitors_told,
    one_finalized, orphan_woken, orphans_released, orphans_woken, sends_dropped, unmarked,
    EndingView, Lane, PendingView, SharedView,
};
use super::monitor::{DownEvent, FlowExitReason, MonitorEntry};
use super::process::{FlowId, FlowView, OutcomeView};
use super::registry::NameView;
use super::waits::{without, AskView};
use crate::bytecode::value::{Message, Value};

verus! {

pub proof fn filter_keeps_only<A>(s: Seq<A>, p: spec_fn(A) -> bool)
    ensures
        forall|i: int| 0 <= i < s.filter(p).len() ==> p(#[trigger] s.filter(p)[i]),
        forall|i: int|
            0 <= i < s.filter(p).len() ==> s.contains(#[trigger] s.filter(p)[i]),
        forall|x: A| #[trigger] s.contains(x) && p(x) ==> s.filter(p).contains(x),
    decreases s.len(),
{
    reveal(Seq::filter);
    if s.len() > 0 {
        let front = s.drop_last();
        filter_keeps_only(front, p);
        assert forall|i: int| 0 <= i < s.filter(p).len() implies p(#[trigger] s.filter(p)[i])
            && s.contains(s.filter(p)[i]) by {
            if i < front.filter(p).len() {
                assert(s.filter(p)[i] == front.filter(p)[i]);
                assert(front.contains(front.filter(p)[i]));
                let k = choose|k: int| 0 <= k < front.len() && front[k] == front.filter(p)[i];
                assert(s[k] == s.filter(p)[i]);
            } else {
                assert(s[s.len() - 1] == s.filter(p)[i]);
            }
        }
        assert forall|x: A| #[trigger] s.contains(x) && p(x) implies s.filter(p).contains(x) by {
            let k = choose|k: int| 0 <= k < s.len() && s[k] == x;
            if k < front.len() {
                assert(front[k] == x);
                assert(front.contains(x));
                let j = choose|j: int| 0 <= j < front.filter(p).len() && front.filter(p)[j] == x;
                assert(s.filter(p)[j] == x);
            } else {
                assert(s.filter(p)[s.filter(p).len() - 1] == x);
            }
        }
    }
}

/// Waking askers touches mailboxes and the ready list and nothing else.
pub proof fn waking_touches(s: SharedView, askers: Seq<u64>, hop: Value, n: nat)
    ensures
        ({
            let t = orphans_woken(s, askers, hop, n);
            &&& t == SharedView { directory: t.directory, ready: t.ready, ..s }
            &&& t.directory.dom() == s.directory.dom()
            &&& s.ready.is_prefix_of(t.ready)
        }),
    decreases n,
{
    if n > 0 {
        waking_touches(s, askers, hop, (n - 1) as nat);
        let u = orphans_woken(s, askers, hop, (n - 1) as nat);
        let t = orphan_woken(u, FlowId(askers[n - 1]), hop);
        assert(t.directory.dom() =~= u.directory.dom());
        assert(u.ready.is_prefix_of(t.ready));
    }
}

/// Notices of monitors touch mailboxes, waits for replies and the ready list.
pub proof fn downs_touch(s: SharedView, events: Seq<DownEvent>, n: nat)
    ensures
        ({
            let t = downs_delivered(s, events, n);
            &&& t == SharedView { directory: t.directory, asks: t.asks, ready: t.ready, ..s }
            &&& t.directory.dom() == s.directory.dom()
            &&& s.ready.is_prefix_of(t.ready)
            &&& forall|a: u64| #[trigger]
                t.asks.by_asker.dom().contains(a) ==> s.asks.by_asker.dom().contains(a)
            &&& forall|x: u64|
                s.asks.waiters(x).len() == 0 ==> (#[trigger] t.asks.waiters(x)).len() == 0
        }),
    decreases n,
{
    if n > 0 {
        downs_touch(s, events, (n - 1) as nat);
        let u = downs_delivered(s, events, (n - 1) as nat);
        let t = down_delivered(u, events[n - 1]);
        assert(t.directory.dom() =~= u.directory.dom());
        assert(u.ready.is_prefix_of(t.ready));
        assert forall|x: u64| s.asks.waiters(x).len() == 0 implies (#[trigger] t.asks.waiters(
            x,
        )).len() == 0 by {
            assert(u.asks.waiters(x).len() == 0);
            assert forall|a: u64| (#[trigger] u.asks.detached(a)).waiters(x).len() == 0 by {
                detaching_adds_no_waiter(u.asks, a, x);
            }
        }
    }
}

proof fn detaching_adds_no_waiter(v: AskView, asker: u64, x: u64)
    requires
        v.waiters(x).len() == 0,
    ensures
        v.detached(asker).waiters(x).len() == 0,
{
    reveal(Seq::filter);
    if v.by_asker.dom().contains(asker) && v.by_asker[asker] == x {
        assert(v.waiters(x) =~= Seq::empty());
        assert(without(v.waiters(x), asker).len() == 0);
    }
}

/// Marking flows to be killed touches marks, mailboxes and waits for room. A
/// mark stays, and a flow that is alive gets one.
pub proof fn extracting_touches(s: SharedView, id: FlowId, reason: FlowExitReason)
    ensures
        ({
            let t = extracted(s, id, reason).0;
            &&& t == SharedView {
                directory: t.directory,
                kills: t.kills,
                waiting_send: t.waiting_send,
                ..s
            }
            &&& t.directory.dom() == s.directory.dom()
            &&& forall|x: u64| #[trigger]
                t.kills.dom().contains(x) <==> s.kills.dom().contains(x) || (x == id.0 && s.alive(
                    id,
                ))
            &&& forall|x: u64| #[trigger]
                t.waiting_send.dom().contains(x) ==> s.waiting_send.dom().contains(x)
        }),
{
    let t = extracted(s, id, reason).0;
    assert(t.directory.dom() =~= s.directory.dom());
}

pub proof fn collecting_touches(s: SharedView, peers: Seq<(LinkId, FlowId)>, n: nat)
    requires
        n <= peers.len(),
    ensures
        ({
            let t = links_collected(s, peers, n).0;
            &&& t == SharedView {
                directory: t.directory,
                kills: t.kills,
                waiting_send: t.waiting_send,
                ..s
            }
            &&& t.directory.dom() == s.directory.dom()
            &&& forall|x: u64| #[trigger]
                s.kills.dom().contains(x) ==> t.kills.dom().contains(x)
            &&& forall|x: u64| #[trigger]
                t.kills.dom().contains(x) ==> s.kills.dom().contains(x) || s.directory.dom().contains(
                    x,
                )
            &&& forall|i: int|
                0 <= i < n && s.alive((#[trigger] peers[i]).1) ==> t.kills.dom().contains(
                    peers[i].1.0,
                )
            &&& forall|x: u64| #[trigger]
                t.waiting_send.dom().contains(x) ==> s.waiting_send.dom().contains(x)
        }),
    decreases n,
{
    if n > 0 {
        collecting_touches(s, peers, (n - 1) as nat);
        let u = links_collected(s, peers, (n - 1) as nat).0;
        extracting_touches(u, peers[n - 1].1, FlowExitReason::Link);
    }
}

proof fn sends_only_shrink(w: Map<u64, u64>, waiting: Seq<(FlowView, Value)>, n: nat)
    ensures
        forall|x: u64| #[trigger]
            sends_dropped(w, waiting, n).dom().contains(x) ==> w.dom().contains(x),
    decreases n,
{
    if n > 0 {
        sends_only_shrink(w, waiting, (n - 1) as nat);
        assert forall|x: u64| #[trigger]
            sends_dropped(w, waiting, n).dom().contains(x) implies w.dom().contains(x) by {
            assert(sends_dropped(w, waiting, (n - 1) as nat).dom().contains(x));
        }
    }
}

/// Nothing in the state speaks of the flow.
pub open spec fn forgets(t: SharedView, id: FlowId) -> bool {
    &&& !t.alive(id)
    &&& forall|cap: u64| (#[trigger] t.caps.resolved(cap)) matches Some(e) ==> e.flow != id
    &&& forall|i: int| 0 <= i < t.registry.len() ==> (#[trigger] t.registry[i]).flow != id
    &&& forall|i: int|
        0 <= i < t.monitors.entries.len() ==> (#[trigger] t.monitors.entries[i]).owner != id
            && t.monitors.entries[i].target != id
    &&& forall|i: int|
        0 <= i < t.links.entries.len() ==> !(#[trigger] t.links.entries[i]).joins(id)
    &&& !t.kills.dom().contains(id.0)
    &&& !t.waiting_send.dom().contains(id.0)
    &&& !t.asks.by_asker.dom().contains(id.0)
    &&& t.asks.waiters(id.0).len() == 0
}

/// When a flow has ended, nothing speaks of it any more: no capability reaches
/// it, no name is bound to it, no monitor or link is left of it, nobody waits
/// for its reply, and it waits for nothing. Its outcome is announced.
pub proof fn ended_flow_is_forgotten(s: SharedView, p: PendingView)
    ensures
        forgets(one_finalized(s, p).0, p.flow.id),
        one_finalized(s, p).0.endings == s.endings.push(
            EndingView { id: p.flow.id, outcome: p.outcome, supervisor: p.flow.supervisor },
        ),
{
    let id = p.flow.id;
    let u = unmarked(s, id);
    let closed = mailbox_closed(u, id).0;
    if u.alive(id) {
        let m = u.directory[id.0];
        sends_only_shrink(u.waiting_send, m.waiting, m.waiting.len());
    }
    assert(!closed.waiting_send.dom().contains(id.0));
    let askers = closed.asks.waiters(id.0);
    let hop = Value::Message(Message::linked_exit_spec(id.0, p.reason.code()));
    let base = SharedView { asks: closed.asks.released(id.0), ..closed };
    waking_touches(base, askers, hop, askers.len());
    let released = orphans_released(closed, id, p.reason);
    let gone = forgotten(released, id);
    filter_keeps_only(released.registry, |e: NameView| e.flow != id);
    filter_keeps_only(released.monitors.entries, |e: MonitorEntry| e.owner != id);
    let without_owner = gone.monitors.entries;
    let quiet = SharedView { monitors: gone.monitors.without_target(id), ..gone };
    filter_keeps_only(without_owner, |e: MonitorEntry| e.target != id);
    assert forall|i: int| 0 <= i < quiet.monitors.entries.len() implies (
    #[trigger] quiet.monitors.entries[i]).owner != id by {
        let e = quiet.monitors.entries[i];
        assert(without_owner.contains(e));
    }
    let events = gone.monitors.downs(id, p.reason);
    downs_touch(quiet, events, events.len());
    let told = monitors_told(gone, id, p.reason);
    let peers = told.links.peers(id);
    let cut = SharedView { links: told.links.without(id), ..told };
    filter_keeps_only(told.links.entries, |e: LinkEntry| !e.joins(id));
    collecting_touches(cut, peers, peers.len());
    let t = links_cut(told, id, p.reason).0;
    assert(!t.alive(id));
    assert(t.asks == told.asks);
    assert(gone.asks.waiters(id.0).len() == 0);
    assert(told.asks.waiters(id.0).len() == 0);
    assert(!u.asks.by_asker.dom().contains(id.0));
}

/// What one end does to marks, outcomes and the ready list.
proof fn ending_one(s: SharedView, p: PendingView)
    ensures
        ({
            let t = one_finalized(s, p).0;
            let id = p.flow.id;
            &&& forall|x: u64| #[trigger]
                s.kills.dom().contains(x) && x != id.0 ==> t.kills.dom().contains(x)
            &&& p.reason is Normal ==> t.kills == s.kills.remove(id.0)
            &&& forall|i: int|
                0 <= i < s.links.peers(id).len() && p.reason.abnormal() && s.alive(
                    (#[trigger] s.links.peers(id)[i]).1,
                ) && s.links.peers(id)[i].1 != id ==> t.kills.dom().contains(
                    s.links.peers(id)[i].1.0,
                )
            &&& s.ready.is_prefix_of(t.ready)
        }),
{
    let id = p.flow.id;
    let u = unmarked(s, id);
    let closed = mailbox_closed(u, id).0;
    assert(closed.directory.dom() =~= u.directory.dom());
    let askers = closed.asks.waiters(id.0);
    let hop = Value::Message(Message::linked_exit_spec(id.0, p.reason.code()));
    waking_touches(
        SharedView { asks: closed.asks.released(id.0), ..closed },
        askers,
        hop,
        askers.len(),
    );
    let gone = forgotten(orphans_released(closed, id, p.reason), id);
    let events = gone.monitors.downs(id, p.reason);
    downs_touch(
        SharedView { monitors: gone.monitors.without_target(id), ..gone },
        events,
        events.len(),
    );
    let told = monitors_told(gone, id, p.reason);
    assert(told.links == s.links);
    let peers = told.links.peers(id);
    let cut = SharedView { links: told.links.without(id), ..told };
    collecting_touches(cut, peers, peers.len());
    let t = one_finalized(s, p).0;
    assert(s.ready.is_prefix_of(gone.ready));
    assert(gone.ready.is_prefix_of(told.ready));
    assert(t.ready == told.ready);
    assert(s.ready.is_prefix_of(t.ready));
    assert(told.kills == s.kills.remove(id.0));
    assert forall|x: u64| #[trigger] s.kills.dom().contains(x) && x != id.0 implies
        t.kills.dom().contains(x) by {
        assert(cut.kills.dom().contains(x));
    }
    assert forall|i: int|
        0 <= i < s.links.peers(id).len() && p.reason.abnormal() && s.alive(
            (#[trigger] s.links.peers(id)[i]).1,
        ) && s.links.peers(id)[i].1 != id implies t.kills.dom().contains(
        s.links.peers(id)[i].1.0,
    ) by {
        assert(cut.alive(peers[i].1));
    }
}

/// An outcome was announced.
pub open spec fn announces(t: SharedView, id: FlowId, outcome: OutcomeView) -> bool {
    exists|i: int|
        0 <= i < t.endings.len() && (#[trigger] t.endings[i]).id == id && t.endings[i].outcome
            == outcome
}

/// A work list ends all its flows. No flow comes to life by it, a mark stays
/// until its flow ends, and no announced outcome is lost.
pub proof fn work_list_ends_all(s: SharedView, work: Seq<PendingView>)
    requires
        s.directory.dom().finite(),
    ensures
        ({
            let t = all_finalized(s, work);
            &&& t.directory.dom().finite()
            &&& t.directory.dom().subset_of(s.directory.dom())
            &&& forall|i: int| 0 <= i < work.len() ==> !t.alive((#[trigger] work[i]).flow.id)
            &&& forall|i: int|
                0 <= i < work.len() ==> announces(
                    t,
                    (#[trigger] work[i]).flow.id,
                    work[i].outcome,
                )
            &&& forall|x: u64| #[trigger]
                s.kills.dom().contains(x) ==> t.kills.dom().contains(x)
                    || !t.directory.dom().contains(x)
            &&& s.endings.is_prefix_of(t.endings)
            &&& s.ready.is_prefix_of(t.ready)
        }),
    decreases s.directory.dom().len(), s.links.entries.len(), work.len(),
{
    if work.len() > 0 {
        let p = work.last();
        let (u, more) = one_finalized(s, p);
        let next = work.drop_last() + more;
        finalizing_shrinks(s, p);
        ending_one(s, p);
        ended_flow_is_forgotten(s, p);
        work_list_ends_all(u, next);
        let t = all_finalized(s, work);
        assert(t == all_finalized(u, next));
        let last = EndingView { id: p.flow.id, outcome: p.outcome, supervisor: p.flow.supervisor };
        let at = s.endings.len() as int;
        assert(u.endings[at] == last);
        assert(t.endings[at] == last);
        assert(announces(t, p.flow.id, p.outcome));
        assert forall|i: int| 0 <= i < work.len() implies !t.alive((#[trigger] work[i]).flow.id)
            && announces(t, work[i].flow.id, work[i].outcome) by {
            if i < work.len() - 1 {
                assert(next[i] == work[i]);
            } else {
                assert(!u.alive(p.flow.id));
            }
        }
        assert forall|x: u64| #[trigger] s.kills.dom().contains(x) implies t.kills.dom().contains(x)
            || !t.directory.dom().contains(x) by {
            if x == p.flow.id.0 {
                assert(!u.alive(p.flow.id));
            } else {
                assert(u.kills.dom().contains(x));
            }
        }
    }
}

/// A flow that finished is not alive, and its outcome is announced.
pub proof fn finished_flow_is_gone(
    s: SharedView,
    flow: FlowView,
    outcome: OutcomeView,
    reason: FlowExitReason,
)
    requires
        s.directory.dom().finite(),
    ensures
        !finished(s, flow, outcome, reason).alive(flow.id),
        announces(finished(s, flow, outcome, reason), flow.id, outcome),
        finished(s, flow, outcome, reason).directory.dom().finite(),
        finished(s, flow, outcome, reason).directory.dom().subset_of(s.directory.dom()),
        s.ready.is_prefix_of(finished(s, flow, outcome, reason).ready),
{
    let work = seq![PendingView { flow, outcome, reason }];
    work_list_ends_all(s, work);
    assert(work[0].flow == flow);
    assert(work[0].outcome == outcome);
}

/// The abnormal end of a flow reaches the flow at the other end of each of its
/// links: that flow ends too, or is marked to end when it next gets a worker.
pub proof fn abnormal_end_spreads(
    s: SharedView,
    flow: FlowView,
    outcome: OutcomeView,
    reason: FlowExitReason,
    link: LinkEntry,
)
    requires
        s.directory.dom().finite(),
        reason.abnormal(),
        s.links.entries.contains(link),
        link.joins(flow.id),
        link.a != link.b,
    ensures
        ({
            let t = finished(s, flow, outcome, reason);
            let peer = link.peer_of(flow.id);
            !t.alive(peer) || t.kills.dom().contains(peer.0)
        }),
{
    let p = PendingView { flow, outcome, reason };
    let id = flow.id;
    let peer = link.peer_of(id);
    let work = seq![p];
    let (u, more) = one_finalized(s, p);
    assert(work.drop_last() + more =~= more);
    finalizing_shrinks(s, p);
    ending_one(s, p);
    work_list_ends_all(u, more);
    let t = finished(s, flow, outcome, reason);
    assert(t == all_finalized(u, more)) by {
        assert(work.last() == p);
    }
    let joined = s.links.entries.filter(|e: LinkEntry| e.joins(id));
    filter_keeps_only(s.links.entries, |e: LinkEntry| e.joins(id));
    assert(joined.contains(link));
    let i = choose|i: int| 0 <= i < joined.len() && joined[i] == link;
    assert(s.links.peers(id)[i] == (link.link, peer));
    if s.alive(peer) {
        assert(u.kills.dom().contains(peer.0));
    } else {
        assert(!t.directory.dom().contains(peer.0));
    }
}

/// The normal end of a flow marks nobody and ends only flows that waited for
/// room in its mailbox.
pub proof fn normal_end_spares_links(s: SharedView, p: PendingView)
    requires
        p.reason is Normal,
    ensures
        one_finalized(s, p).0.kills == s.kills.remove(p.flow.id.0),
        one_finalized(s, p).1 == mailbox_closed(unmarked(s, p.flow.id), p.flow.id).1,
{
    ending_one(s, p);
    let senders = mailbox_closed(unmarked(s, p.flow.id), p.flow.id).1;
    assert(senders + Seq::<PendingView>::empty() =~= senders);
}

/// A flow that was killed is gone, or is marked to end when it next gets a
/// worker.
pub proof fn killed_flow_ends(s: SharedView, id: FlowId, reason: FlowExitReason)
    requires
        s.directory.dom().finite(),
    ensures
        ({
            let t = kill_requested(s, id, reason);
            !t.alive(id) || t.kills.dom().contains(id.0)
        }),
{
    extracting_touches(s, id, reason);
    match extracted(s, id, reason) {
        (t, Some(flow)) => {
            let outcome = OutcomeView::Failed("killed ("@ + reason.spec_text()@ + ")"@);
            assert(t.kills.dom().contains(id.0));
            work_list_ends_all(t, seq![PendingView { flow, outcome, reason }]);
        },
        (t, None) => {
            assert(s.alive(id) ==> t.kills.dom().contains(id.0));
        },
    }
}

/// A flow that is marked to be killed never runs again: it ends when it gets a
/// worker.
pub proof fn marked_flow_never_runs(s: SharedView, flow: FlowView)
    requires
        s.directory.dom().finite(),
        s.kills.dom().contains(flow.id.0),
    ensures
        begun(s, flow).1 is None,
        !begun(s, flow).0.alive(flow.id),
        announces(
            begun(s, flow).0,
            flow.id,
            OutcomeView::Failed("linked exit ("@ + s.kills[flow.id.0].spec_text()@ + ")"@),
        ),
{
    let f = match flow.pending_message {
        Some(v) => FlowView { pending_message: None, ..flow }.received(v),
        None => flow,
    };
    let t = SharedView { kills: s.kills.remove(f.id.0), ..s };
    let reason = s.kills[flow.id.0];
    finished_flow_is_gone(
        t,
        f,
        OutcomeView::Failed("linked exit ("@ + reason.spec_text()@ + ")"@),
        reason,
    );
}

proof fn asker_stays_until_its_turn(
    s: SharedView,
    askers: Seq<u64>,
    hop: Value,
    k: int,
    n: nat,
    f: FlowView,
)
    requires
        0 <= k < askers.len(),
        n <= askers.len(),
        askers.no_duplicates(),
        s.directory.dom().contains(askers[k]),
        s.directory[askers[k]].parked == Some(f),
    ensures
        n <= k ==> orphans_woken(s, askers, hop, n).mailbox_of(FlowId(askers[k])) == s.mailbox_of(
            FlowId(askers[k]),
        ),
        n > k ==> orphans_woken(s, askers, hop, n).ready.contains(
            (Lane::Global, f.received(hop)),
        ),
    decreases n,
{
    if n > 0 {
        let u = orphans_woken(s, askers, hop, (n - 1) as nat);
        let t = orphans_woken(s, askers, hop, n);
        asker_stays_until_its_turn(s, askers, hop, k, (n - 1) as nat, f);
        if n - 1 == k {
            assert(t.ready[u.ready.len() as int] == (Lane::Global, f.received(hop)));
        } else if n - 1 > k {
            let i = choose|i: int|
                0 <= i < u.ready.len() && u.ready[i] == (Lane::Global, f.received(hop));
            assert(t.ready[i] == u.ready[i]);
        } else {
            assert(askers[n - 1] != askers[k]);
        }
    }
}

/// Nobody waits for the reply of a flow that ended: every flow that waited for
/// it goes on, with a notice in place of the reply.
pub proof fn askers_of_the_dead_go_on(s: SharedView, p: PendingView, asker: FlowId, f: FlowView)
    requires
        s.asks.consistent(),
        asker != p.flow.id,
        s.asks.by_asker.dom().contains(asker.0),
        s.asks.by_asker[asker.0] == p.flow.id.0,
        s.alive(asker),
        s.directory[asker.0].parked == Some(f),
    ensures
        one_finalized(s, p).0.ready.contains(
            (
                Lane::Global,
                f.received(
                    Value::Message(Message::linked_exit_spec(p.flow.id.0, p.reason.code())),
                ),
            ),
        ),
{
    let id = p.flow.id;
    let u = unmarked(s, id);
    super::waits::detaching_keeps_agreement(s.asks, id.0);
    assert(u.asks.consistent());
    assert(u.asks.by_asker.dom().contains(asker.0));
    let closed = mailbox_closed(u, id).0;
    let askers = closed.asks.waiters(id.0);
    assert(askers.contains(asker.0));
    assert(askers.no_duplicates());
    let k = choose|k: int| 0 <= k < askers.len() && askers[k] == asker.0;
    let hop = Value::Message(Message::linked_exit_spec(id.0, p.reason.code()));
    let base = SharedView { asks: closed.asks.released(id.0), ..closed };
    asker_stays_until_its_turn(base, askers, hop, k, askers.len(), f);
    let released = orphans_released(closed, id, p.reason);
    let item = (Lane::Global, f.received(hop));
    assert(released.ready.contains(item));
    let i = choose|i: int| 0 <= i < released.ready.len() && released.ready[i] == item;
    let gone = forgotten(released, id);
    let events = gone.monitors.downs(id, p.reason);
    downs_touch(
        SharedView { monitors: gone.monitors.without_target(id), ..gone },
        events,
        events.len(),
    );
    let told = monitors_told(gone, id, p.reason);
    assert(told.ready[i] == item);
    let peers = told.links.peers(id);
    collecting_touches(
        SharedView { links: told.links.without(id), ..told },
        peers,
        peers.len(),
    );
    assert(one_finalized(s, p).0.ready[i] == item);
}

/// Ending a flow changes no setting.
pub proof fn ending_keeps_settings(s: SharedView, p: PendingView)
    ensures
        ({
            let t = one_finalized(s, p).0;
            t.quantum == s.quantum && t.mailbox == s.mailbox && t.max_flows == s.max_flows
                && t.timer == s.timer
        }),
{
    let id = p.flow.id;
    let closed = mailbox_closed(unmarked(s, id), id).0;
    let askers = closed.asks.waiters(id.0);
    let hop = Value::Message(Message::linked_exit_spec(id.0, p.reason.code()));
    waking_touches(
        SharedView { asks: closed.asks.released(id.0), ..closed },
        askers,
        hop,
        askers.len(),
    );
    let gone = forgotten(orphans_released(closed, id, p.reason), id);
    let events = gone.monitors.downs(id, p.reason);
    downs_touch(
        SharedView { monitors: gone.monitors.without_target(id), ..gone },
        events,
        events.len(),
    );
    let told = monitors_told(gone, id, p.reason);
    let peers = told.links.peers(id);
    collecting_touches(
        SharedView { links: told.links.without(id), ..told },
        peers,
        peers.len(),
    );
}

// ---- monitors -----------------------------------------------------------

/// Waking askers leaves what is queued, and no flow begins to wait by it.
proof fn waking_keeps_queues(s: SharedView, askers: Seq<u64>, hop: Value, n: nat, id: u64)
    ensures
        ({
            let t = orphans_woken(s, askers, hop, n);
            &&& t.directory[id].queue == s.directory[id].queue
            &&& t.directory[id].parked is None || t.directory[id].parked == s.directory[id].parked
        }),
    decreases n,
{
    if n > 0 {
        waking_keeps_queues(s, askers, hop, (n - 1) as nat, id);
    }
}

/// Marking flows to be killed leaves what is queued.
proof fn collecting_keeps_queues(s: SharedView, peers: Seq<(LinkId, FlowId)>, n: nat, id: u64)
    ensures
        links_collected(s, peers, n).0.directory[id].queue == s.directory[id].queue,
    decreases n,
{
    if n > 0 {
        collecting_keeps_queues(s, peers, (n - 1) as nat, id);
    }
}

/// What the owner of a monitor gets when its target ends.
pub open spec fn down_notice(e: DownEvent) -> Value {
    Value::Message(Message::down_spec(e.monitor.0, e.target.0, e.reason.code()))
}

/// Notices are only added to what is queued, and no flow begins to wait by
/// them.
proof fn downs_add_to_queues(s: SharedView, events: Seq<DownEvent>, n: nat, id: u64)
    ensures
        ({
            let t = downs_delivered(s, events, n);
            &&& s.directory[id].queue.is_prefix_of(t.directory[id].queue)
            &&& t.directory[id].parked is None || t.directory[id].parked == s.directory[id].parked
        }),
    decreases n,
{
    if n > 0 {
        downs_add_to_queues(s, events, (n - 1) as nat, id);
        let u = downs_delivered(s, events, (n - 1) as nat);
        let t = down_delivered(u, events[n - 1]);
        assert(u.directory[id].queue.is_prefix_of(t.directory[id].queue));
    }
}

/// The owner of a monitor has its notice: it is in the owner's queue, or the
/// owner waited for it and goes on with it.
pub open spec fn has_notice(t: SharedView, owner: u64, waiting: Option<FlowView>, notice: Value) -> bool {
    ||| t.directory[owner].queue.contains(notice)
    ||| waiting is Some && t.ready.contains((Lane::Global, waiting.unwrap().received(notice)))
}

proof fn each_down_arrives(s: SharedView, events: Seq<DownEvent>, n: nat, k: int)
    requires
        0 <= k < n,
        s.alive(events[k].owner),
    ensures
        has_notice(
            downs_delivered(s, events, n),
            events[k].owner.0,
            s.directory[events[k].owner.0].parked,
            down_notice(events[k]),
        ),
    decreases n,
{
    let before = (n - 1) as nat;
    let owner = events[k].owner.0;
    let notice = down_notice(events[k]);
    let waiting = s.directory[owner].parked;
    let u = downs_delivered(s, events, before);
    let t = down_delivered(u, events[n - 1]);
    downs_touch(s, events, before);
    downs_add_to_queues(s, events, before, owner);
    if k == n - 1 {
        let m = u.directory[owner];
        if m.wants(notice) {
            assert(t.ready[t.ready.len() - 1] == (Lane::Global, waiting.unwrap().received(notice)));
        } else {
            assert(t.directory[owner].queue[m.queue.len() as int] == notice);
        }
    } else {
        each_down_arrives(s, events, before, k);
        if u.directory[owner].queue.contains(notice) {
            let i = choose|i: int|
                0 <= i < u.directory[owner].queue.len() && u.directory[owner].queue[i] == notice;
            assert(t.directory[owner].queue[i] == notice);
        } else {
            let woken = (Lane::Global, waiting.unwrap().received(notice));
            let i = choose|i: int| 0 <= i < u.ready.len() && u.ready[i] == woken;
            assert(t.ready[i] == woken);
        }
    }
}

/// The end of a flow is reported to the owner of each of its monitors, even if
/// the owner's mailbox is full: the notice is in the owner's queue, or the
/// owner waited for it and goes on with it.
pub proof fn monitors_report_the_end(s: SharedView, p: PendingView, e: MonitorEntry)
    requires
        s.directory.dom().finite(),
        s.monitors.entries.contains(e),
        e.target == p.flow.id,
        e.owner != p.flow.id,
        s.alive(e.owner),
    ensures
        one_finalized(s, p).0.alive(e.owner),
        has_notice(
            one_finalized(s, p).0,
            e.owner.0,
            s.directory[e.owner.0].parked,
            down_notice(
                DownEvent { monitor: e.monitor, owner: e.owner, target: e.target, reason: p.reason },
            ),
        ),
{
    let id = p.flow.id;
    let owner = e.owner.0;
    let waiting = s.directory[owner].parked;
    let event = DownEvent { monitor: e.monitor, owner: e.owner, target: id, reason: p.reason };
    let notice = down_notice(event);
    finalizing_shrinks(s, p);

    let closed = mailbox_closed(unmarked(s, id), id).0;
    let askers = closed.asks.waiters(id.0);
    let hop = Value::Message(Message::linked_exit_spec(id.0, p.reason.code()));
    let free = SharedView { asks: closed.asks.released(id.0), ..closed };
    waking_touches(free, askers, hop, askers.len());
    waking_keeps_queues(free, askers, hop, askers.len(), owner);
    let released = orphans_released(closed, id, p.reason);
    let gone = forgotten(released, id);
    assert(gone.directory[owner].parked is None || gone.directory[owner].parked == waiting);

    filter_keeps_only(s.monitors.entries, |x: MonitorEntry| x.owner != id);
    assert(gone.monitors.entries.contains(e));
    filter_keeps_only(gone.monitors.entries, |x: MonitorEntry| x.target == id);
    let watching = gone.monitors.entries.filter(|x: MonitorEntry| x.target == id);
    let j = choose|j: int| 0 <= j < watching.len() && watching[j] == e;
    let events = gone.monitors.downs(id, p.reason);
    assert(events[j] == event);
    let start = SharedView { monitors: gone.monitors.without_target(id), ..gone };
    each_down_arrives(start, events, events.len(), j);

    let told = monitors_told(gone, id, p.reason);
    let peers = told.links.peers(id);
    let unlinked = SharedView { links: told.links.without(id), ..told };
    collecting_keeps_queues(unlinked, peers, peers.len(), owner);
    collecting_touches(unlinked, peers, peers.len());
    let cut = links_cut(told, id, p.reason).0;
    assert(cut.directory[owner].queue == told.directory[owner].queue);
    assert(cut.ready == told.ready);
}

} // verus!
