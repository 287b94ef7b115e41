//! What the end of a flow means for the others.

use vstd::prelude::*;

use super::endings::{
    announces, askers_of_the_dead_go_on, collecting_touches, downs_touch, ended_flow_is_forgotten,
    filter_keeps_only, has_notice, monitors_report_the_end, waking_touches, work_list_ends_all,
};
use super::link::{LinkEntry, LinkId};
use super::mailbox::MailboxView;
use super::model::{
    all_finalized, down_delivered, downs_delivered, extracted, finalizing_shrinks, finished,
    forgotten, kill_requested, links_collected, links_cut, mailbox_closed, monitors_told,
    one_finalized, orphan_woken, orphans_released, orphans_woken, stranded, unmarked, Lane,
    PendingView, SharedView,
};
use super::monitor::{DownEvent, FlowExitReason, MonitorEntry};
use super::process::{next_count, FlowId, FlowView, OutcomeView};
use super::registry::NameView;
use crate::bytecode::value::{Message, Value};
use crate::text::dec;

verus! {

/// The reasons for an end have different numbers and names, and all but the
/// normal one are abnormal.
pub proof fn reasons_differ(r: FlowExitReason)
    ensures
        r == FlowExitReason::Normal ==> r.code() == 0 && !r.abnormal() && r.spec_text() == "normal",
        r == FlowExitReason::Fault ==> r.code() == 1 && r.abnormal() && r.spec_text() == "fault",
        r == FlowExitReason::Killed ==> r.code() == 2 && r.abnormal() && r.spec_text() == "killed",
        r == FlowExitReason::Link ==> r.code() == 3 && r.abnormal() && r.spec_text() == "link",
{
}

/// A link joins its two ends, and the peer of one end is the other.
pub proof fn links_join_their_ends(e: LinkEntry, flow: FlowId)
    ensures
        e.joins(flow) <==> e.a == flow || e.b == flow,
        e.a == flow ==> e.peer_of(flow) == e.b,
        e.b == flow && e.a != flow ==> e.peer_of(flow) == e.a,
{
}

// ---- one end ------------------------------------------------------------

/// The end of a flow is counted as what it is, a completion or a failure, and
/// announced, last, with its outcome and for its supervisor.
pub proof fn end_is_counted_and_announced(s: SharedView, p: PendingView)
    ensures
        ({
            let t = one_finalized(s, p).0;
            &&& t.endings.len() == s.endings.len() + 1
            &&& t.endings.drop_last() == s.endings
            &&& t.endings.last().id == p.flow.id
            &&& t.endings.last().outcome == p.outcome
            &&& t.endings.last().supervisor == p.flow.supervisor
            &&& p.outcome is Completed ==> next_count(
                s.metrics.processes_completed,
                t.metrics.processes_completed,
            ) && t.metrics.processes_failed == s.metrics.processes_failed
            &&& p.outcome is Failed ==> next_count(
                s.metrics.processes_failed,
                t.metrics.processes_failed,
            ) && t.metrics.processes_completed == s.metrics.processes_completed
            &&& t.metrics.processes_spawned == s.metrics.processes_spawned
            &&& t.metrics.messages_sent == s.metrics.messages_sent
        }),
{
    ended_flow_is_forgotten(s, p);
    let t = one_finalized(s, p).0;
    assert(t.endings.drop_last() =~= s.endings);
    steps_of_an_end(s, p);
}

/// The states that an end goes through touch what they are for.
proof fn steps_of_an_end(s: SharedView, p: PendingView)
    ensures
        ({
            let id = p.flow.id;
            let closed = mailbox_closed(unmarked(s, id), id).0;
            let released = orphans_released(closed, id, p.reason);
            let gone = forgotten(released, id);
            let told = monitors_told(gone, id, p.reason);
            let cut = links_cut(told, id, p.reason).0;
            &&& closed.directory.dom() == s.directory.dom()
            &&& released == (SharedView {
                directory: released.directory,
                ready: released.ready,
                asks: released.asks,
                ..closed
            })
            &&& released.directory.dom() == s.directory.dom()
            &&& told == (SharedView {
                directory: told.directory,
                asks: told.asks,
                ready: told.ready,
                monitors: gone.monitors.without_target(id),
                ..gone
            })
            &&& told.directory.dom() == s.directory.dom().remove(id.0)
            &&& cut == (SharedView {
                directory: cut.directory,
                kills: cut.kills,
                waiting_send: cut.waiting_send,
                links: told.links.without(id),
                ..told
            })
            &&& cut.directory.dom() == s.directory.dom().remove(id.0)
        }),
{
    let id = p.flow.id;
    let closed = mailbox_closed(unmarked(s, id), id).0;
    assert(closed.directory.dom() =~= s.directory.dom());
    let askers = closed.asks.waiters(id.0);
    let hop = Value::Message(Message::linked_exit_spec(id.0, p.reason.code()));
    let free = SharedView { asks: closed.asks.released(id.0), ..closed };
    waking_touches(free, askers, hop, askers.len());
    let gone = forgotten(orphans_released(closed, id, p.reason), id);
    assert(gone.directory.dom() =~= s.directory.dom().remove(id.0));
    let events = gone.monitors.downs(id, p.reason);
    let quiet = SharedView { monitors: gone.monitors.without_target(id), ..gone };
    downs_touch(quiet, events, events.len());
    let told = monitors_told(gone, id, p.reason);
    let peers = told.links.peers(id);
    collecting_touches(
        SharedView { links: told.links.without(id), ..told },
        peers,
        peers.len(),
    );
}

/// The end of a flow spares what is not its own: the same other flows are alive,
/// every capability for another flow, every name of another flow, and every
/// monitor and link between other flows is as it was. Deadlines stay.
pub proof fn end_spares_the_others(
    s: SharedView,
    p: PendingView,
    x: u64,
    cap: u64,
    name: NameView,
    monitor: MonitorEntry,
    link: LinkEntry,
)
    ensures
        ({
            let t = one_finalized(s, p).0;
            let id = p.flow.id;
            &&& x != id.0 ==> (t.directory.dom().contains(x) <==> s.directory.dom().contains(x))
            &&& s.caps.entries.dom().contains(cap) && s.caps.entries[cap].flow != id
                ==> t.caps.entries.dom().contains(cap) && t.caps.entries[cap] == s.caps.entries[cap]
            &&& t.caps.entries.dom().contains(cap) ==> s.caps.entries.dom().contains(cap)
            &&& name.flow != id ==> (t.registry.contains(name) <==> s.registry.contains(name))
            &&& monitor.owner != id && monitor.target != id ==> (t.monitors.entries.contains(monitor)
                <==> s.monitors.entries.contains(monitor))
            &&& link.a != id && link.b != id ==> (t.links.entries.contains(link)
                <==> s.links.entries.contains(link))
            &&& t.timer == s.timer
            &&& t.quantum == s.quantum && t.mailbox == s.mailbox && t.max_flows == s.max_flows
        }),
{
    let id = p.flow.id;
    let t = one_finalized(s, p).0;
    steps_of_an_end(s, p);
    filter_is_exact(s.registry, |e: NameView| e.flow != id, name);
    filter_is_exact(s.monitors.entries, |e: MonitorEntry| e.owner != id, monitor);
    let mine = s.monitors.without_owner(id).entries;
    filter_is_exact(mine, |e: MonitorEntry| e.target != id, monitor);
    filter_is_exact(s.links.entries, |e: LinkEntry| !e.joins(id), link);
}

/// A filter keeps exactly what passes it.
pub proof fn filter_is_exact<A>(s: Seq<A>, p: spec_fn(A) -> bool, x: A)
    ensures
        s.filter(p).contains(x) <==> s.contains(x) && p(x),
{
    filter_keeps_only(s, p);
    if s.filter(p).contains(x) {
        let j = choose|j: int| 0 <= j < s.filter(p).len() && s.filter(p)[j] == x;
        assert(p(s.filter(p)[j]));
        assert(s.contains(s.filter(p)[j]));
    }
}

// ---- those who hear of it -----------------------------------------------

/// The owner of a monitor gets the notice of the end, in its queue or, if it
/// waited for it, at once: from the flow that ended, with the number of the
/// monitor, the tag of such notices and the number of the reason.
pub proof fn watchers_hear_of_the_end(s: SharedView, p: PendingView, e: MonitorEntry)
    requires
        s.directory.dom().finite(),
        s.monitors.entries.contains(e),
        e.target == p.flow.id,
        e.owner != p.flow.id,
        s.directory.dom().contains(e.owner.0),
    ensures
        has_notice(
            one_finalized(s, p).0,
            e.owner.0,
            s.directory[e.owner.0].parked,
            Value::Message(
                Message {
                    sender: p.flow.id.0,
                    reply_cap: 0,
                    request_id: e.monitor.0,
                    tag: 0xFF01,
                    payload: match p.reason {
                        FlowExitReason::Normal => 0,
                        FlowExitReason::Fault => 1,
                        FlowExitReason::Killed => 2,
                        FlowExitReason::Link => 3,
                    },
                },
            ),
        ),
{
    monitors_report_the_end(s, p, e);
}

/// A flow that waits for the reply of the one that ended is ready with a notice in
/// place of the reply: from the flow that ended, with the tag of such notices and
/// the number of the reason.
pub proof fn askers_hear_of_the_end(s: SharedView, p: PendingView, asker: FlowId, f: FlowView)
    requires
        s.asks.consistent(),
        asker != p.flow.id,
        s.asks.by_asker.dom().contains(asker.0),
        s.asks.by_asker[asker.0] == p.flow.id.0,
        s.directory.dom().contains(asker.0),
        s.directory[asker.0].parked == Some(f),
    ensures
        one_finalized(s, p).0.ready.contains(
            (
                Lane::Global,
                f.received(
                    Value::Message(
                        Message {
                            sender: p.flow.id.0,
                            reply_cap: 0,
                            request_id: 0,
                            tag: 0xFF02,
                            payload: match p.reason {
                                FlowExitReason::Normal => 0,
                                FlowExitReason::Fault => 1,
                                FlowExitReason::Killed => 2,
                                FlowExitReason::Link => 3,
                            },
                        },
                    ),
                ),
            ),
        ),
{
    askers_of_the_dead_go_on(s, p, asker, f);
}

/// The mailbox of a flow that the end does not concern, one that neither watches
/// nor asks nor is linked to the flow that ended, holds what it held, and its owner
/// waits for what it waited for, or waits as little.
pub proof fn bystanders_notice_nothing(s: SharedView, p: PendingView, x: u64)
    requires
        s.asks.consistent(),
        x != p.flow.id.0,
        s.directory.dom().contains(x),
        !(s.asks.by_asker.dom().contains(x) && s.asks.by_asker[x] == p.flow.id.0),
        forall|i: int|
            0 <= i < s.monitors.entries.len() ==> !((#[trigger] s.monitors.entries[i]).owner.0 == x
                && s.monitors.entries[i].target == p.flow.id),
        forall|i: int|
            0 <= i < s.links.entries.len() ==> !((#[trigger] s.links.entries[i]).joins(p.flow.id)
                && s.links.entries[i].joins(FlowId(x))),
    ensures
        same_inbox(s.directory[x], one_finalized(s, p).0.directory[x]),
{
    let id = p.flow.id;
    let u = unmarked(s, id);
    super::waits::detaching_keeps_agreement(s.asks, id.0);
    let closed = mailbox_closed(u, id).0;
    let askers = closed.asks.waiters(id.0);
    let hop = Value::Message(Message::linked_exit_spec(id.0, p.reason.code()));
    let free = SharedView { asks: closed.asks.released(id.0), ..closed };
    assert(closed.directory[x] == s.directory[x]);
    assert forall|k: int| 0 <= k < askers.len() implies askers[k] != x by {
        assert(u.asks.by_asker.dom().contains(u.asks.waiters(id.0)[k]));
        assert(u.asks.by_asker[u.asks.waiters(id.0)[k]] == id.0);
    }
    waking_spares(free, askers, hop, askers.len(), x);
    let released = orphans_released(closed, id, p.reason);
    let gone = forgotten(released, id);
    assert(gone.directory[x] == s.directory[x]);
    steps_of_an_end(s, p);
    let events = gone.monitors.downs(id, p.reason);
    let quiet = SharedView { monitors: gone.monitors.without_target(id), ..gone };
    assert forall|k: int| 0 <= k < events.len() implies (#[trigger] events[k]).owner.0 != x by {
        let watching = gone.monitors.entries.filter(|e: MonitorEntry| e.target == id);
        filter_keeps_only(gone.monitors.entries, |e: MonitorEntry| e.target == id);
        let e = watching[k];
        assert(gone.monitors.entries.contains(e));
        filter_is_exact(s.monitors.entries, |e: MonitorEntry| e.owner != id, e);
        let j = choose|j: int| 0 <= j < s.monitors.entries.len() && s.monitors.entries[j] == e;
        assert(s.monitors.entries[j].target == id);
    }
    downs_spare(quiet, events, events.len(), x);
    let told = monitors_told(gone, id, p.reason);
    let peers = told.links.peers(id);
    assert(told.links == s.links);
    assert forall|k: int| 0 <= k < peers.len() implies (#[trigger] peers[k]).1.0 != x by {
        let joined = s.links.entries.filter(|e: LinkEntry| e.joins(id));
        filter_keeps_only(s.links.entries, |e: LinkEntry| e.joins(id));
        let e = joined[k];
        assert(s.links.entries.contains(e));
        let j = choose|j: int| 0 <= j < s.links.entries.len() && s.links.entries[j] == e;
        assert(s.links.entries[j].joins(id));
        assert(peers[k].1 == e.peer_of(id));
    }
    let cut = SharedView { links: told.links.without(id), ..told };
    collecting_spares(cut, peers, peers.len(), x);
}

/// The same messages are queued, the same flow waits for the same, and the
/// mailbox is as open as it was.
pub open spec fn same_inbox(m: MailboxView, t: MailboxView) -> bool {
    &&& t.queue == m.queue
    &&& t.parked == m.parked
    &&& t.filter == m.filter
    &&& t.epoch == m.epoch
    &&& t.closed == m.closed
}

proof fn waking_spares(s: SharedView, askers: Seq<u64>, hop: Value, n: nat, x: u64)
    requires
        n <= askers.len(),
        forall|k: int| 0 <= k < askers.len() ==> askers[k] != x,
    ensures
        orphans_woken(s, askers, hop, n).directory[x] == s.directory[x],
    decreases n,
{
    if n > 0 {
        waking_spares(s, askers, hop, (n - 1) as nat, x);
        let u = orphans_woken(s, askers, hop, (n - 1) as nat);
        assert(askers[n - 1] != x);
        assert(orphan_woken(u, FlowId(askers[n - 1]), hop).directory[x] == u.directory[x]);
    }
}

proof fn downs_spare(s: SharedView, events: Seq<DownEvent>, n: nat, x: u64)
    requires
        n <= events.len(),
        forall|k: int| 0 <= k < events.len() ==> (#[trigger] events[k]).owner.0 != x,
    ensures
        downs_delivered(s, events, n).directory[x] == s.directory[x],
    decreases n,
{
    if n > 0 {
        downs_spare(s, events, (n - 1) as nat, x);
        let u = downs_delivered(s, events, (n - 1) as nat);
        assert(events[n - 1].owner.0 != x);
        assert(down_delivered(u, events[n - 1]).directory[x] == u.directory[x]);
    }
}

proof fn collecting_spares(s: SharedView, peers: Seq<(LinkId, FlowId)>, n: nat, x: u64)
    requires
        n <= peers.len(),
        forall|k: int| 0 <= k < peers.len() ==> (#[trigger] peers[k]).1.0 != x,
    ensures
        same_inbox(s.directory[x], links_collected(s, peers, n).0.directory[x]),
    decreases n,
{
    if n > 0 {
        collecting_spares(s, peers, (n - 1) as nat, x);
        let u = links_collected(s, peers, (n - 1) as nat).0;
        assert(peers[n - 1].1.0 != x);
        assert(same_inbox(
            u.directory[x],
            extracted(u, peers[n - 1].1, FlowExitReason::Link).0.directory[x],
        ));
    }
}

// ---- those who end too --------------------------------------------------

/// The senders that wait for room at a flow that ends are all that are stranded,
/// in their order: each fails, with a text that names the flow, and none is left
/// in the line or in the index.
pub proof fn senders_are_stranded_with_it(waiting: Seq<(FlowView, Value)>, id: FlowId, k: int)
    requires
        0 <= k < waiting.len(),
    ensures
        stranded(waiting, id).len() == waiting.len(),
        stranded(waiting, id)[k].flow == waiting[k].0,
        stranded(waiting, id)[k].reason == FlowExitReason::Fault,
        stranded(waiting, id)[k].outcome == OutcomeView::Failed(
            "send target "@ + ("flow#"@ + dec(id.0 as nat)) + " exited"@,
        ),
{
}

/// A flow that waits for room in the mailbox of a live flow fails when that flow
/// ends: it is gone, and its failure is announced.
pub proof fn stranded_senders_fail(
    s: SharedView,
    flow: FlowView,
    outcome: OutcomeView,
    reason: FlowExitReason,
    k: int,
)
    requires
        s.directory.dom().finite(),
        s.directory.dom().contains(flow.id.0),
        0 <= k < s.directory[flow.id.0].waiting.len(),
    ensures
        ({
            let t = finished(s, flow, outcome, reason);
            let w = s.directory[flow.id.0].waiting[k].0;
            &&& !t.directory.dom().contains(w.id.0)
            &&& announces(
                t,
                w.id,
                OutcomeView::Failed(
                    "send target "@ + ("flow#"@ + dec(flow.id.0 as nat)) + " exited"@,
                ),
            )
        }),
{
    let p = PendingView { flow, outcome, reason };
    let work = seq![p];
    let (u, more) = one_finalized(s, p);
    finalizing_shrinks(s, p);
    assert(work.drop_last() + more =~= more);
    assert(finished(s, flow, outcome, reason) == all_finalized(u, more)) by {
        assert(work.last() == p);
    }
    work_list_ends_all(u, more);
    let waiting = s.directory[flow.id.0].waiting;
    senders_are_stranded_with_it(waiting, flow.id, k);
    assert(more[k] == stranded(waiting, flow.id)[k]);
}

/// Taking a flow out of where it waits. A live flow is marked with the reason. If
/// it waited for a message it waits no longer, and is handed out. If it waited for
/// room, it is out of that line and handed out. Otherwise it is left to its worker.
pub proof fn extraction_is_exact(s: SharedView, id: FlowId, reason: FlowExitReason, x: u64)
    requires
        s.directory.dom().contains(id.0),
    ensures
        ({
            let (t, taken) = extracted(s, id, reason);
            let m = s.directory[id.0];
            &&& t.kills.dom().contains(id.0) && t.kills[id.0] == reason
            &&& x != id.0 ==> (t.kills.dom().contains(x) <==> s.kills.dom().contains(x)) && (
            s.kills.dom().contains(x) ==> t.kills[x] == s.kills[x])
            &&& t.directory[id.0].parked is None
            &&& t.directory[id.0].queue == m.queue
            &&& m.parked is Some ==> taken == m.parked && t.waiting_send == s.waiting_send
            &&& m.parked is None && !s.waiting_send.dom().contains(id.0) ==> taken is None
            &&& taken matches Some(f) ==> m.parked is None ==> {
                let at = s.waiting_send[id.0];
                &&& s.waiting_send.dom().contains(id.0)
                &&& f.id == id
                &&& !t.waiting_send.dom().contains(id.0)
                &&& exists|i: int|
                    {
                        &&& 0 <= i < s.directory[at].waiting.len()
                        &&& #[trigger] s.directory[at].waiting[i].0 == f
                        &&& t.directory[at].waiting == s.directory[at].waiting.remove(i)
                    }
            }
            &&& x != id.0 && s.directory.dom().contains(x) ==> same_inbox(
                s.directory[x],
                t.directory[x],
            )
            &&& t == (SharedView {
                directory: t.directory,
                kills: t.kills,
                waiting_send: t.waiting_send,
                ..s
            })
        }),
{
    let (t, taken) = extracted(s, id, reason);
    let m = s.directory[id.0];
    let u = s.directory.insert(id.0, m.unparked());
    if m.parked is None && s.waiting_send.dom().contains(id.0) && u.dom().contains(
        s.waiting_send[id.0],
    ) {
        let at = s.waiting_send[id.0];
        let b = u[at];
        index_finds_the_sender(b, id, 0);
        assert(b.waiting == s.directory[at].waiting);
        let i = b.sender_index(id, 0);
        if i < b.waiting.len() {
            assert(s.directory[at].waiting[i as int].0 == taken.unwrap());
        }
    }
}

proof fn index_finds_the_sender(m: MailboxView, id: FlowId, i: nat)
    requires
        i <= m.waiting.len(),
    ensures
        i <= m.sender_index(id, i) <= m.waiting.len(),
        m.sender_index(id, i) < m.waiting.len() ==> m.waiting[m.sender_index(id, i) as int].0.id
            == id,
    decreases m.waiting.len() - i,
{
    if i < m.waiting.len() && m.waiting[i as int].0.id != id {
        index_finds_the_sender(m, id, i + 1);
    }
}

/// A flow that is killed while it waits is gone at once, and its failure names the
/// reason; one that runs, sleeps or is ready is marked with the reason, and is
/// otherwise as it was. A flow that is not alive cannot be killed.
pub proof fn killing_is_exact(s: SharedView, id: FlowId, reason: FlowExitReason)
    requires
        s.directory.dom().finite(),
    ensures
        ({
            let t = kill_requested(s, id, reason);
            let waits = s.directory.dom().contains(id.0) && s.directory[id.0].parked is Some;
            &&& !s.directory.dom().contains(id.0) ==> t == s
            &&& waits && s.directory[id.0].parked.unwrap().id == id ==> {
                &&& !t.directory.dom().contains(id.0)
                &&& announces(
                    t,
                    id,
                    OutcomeView::Failed("killed ("@ + reason.spec_text()@ + ")"@),
                )
            }
            &&& s.directory.dom().contains(id.0) && !waits && !s.waiting_send.dom().contains(id.0) ==> {
                &&& t.directory.dom() == s.directory.dom()
                &&& t.kills == s.kills.insert(id.0, reason)
                &&& t.endings == s.endings
                &&& t.ready == s.ready
                &&& t.timer == s.timer
            }
        }),
{
    let (t, taken) = extracted(s, id, reason);
    super::endings::extracting_touches(s, id, reason);
    if s.directory.dom().contains(id.0) {
        extraction_is_exact(s, id, reason, 0);
        match taken {
            Some(flow) => {
                let outcome = OutcomeView::Failed("killed ("@ + reason.spec_text()@ + ")"@);
                let work = seq![PendingView { flow, outcome, reason }];
                work_list_ends_all(t, work);
                assert(work[0].flow == flow && work[0].outcome == outcome);
            },
            None => {},
        }
        if s.directory[id.0].parked is None && !s.waiting_send.dom().contains(id.0) {
            assert(t.kills =~= s.kills.insert(id.0, reason));
        }
    }
}

/// What follows a flow by its links fails as linked: of those that wait and are
/// taken along, each has this reason and outcome, and it is at the other end of
/// one of the links.
pub proof fn peers_follow_as_linked(s: SharedView, peers: Seq<(LinkId, FlowId)>, n: nat, k: int)
    requires
        n <= peers.len(),
        super::places::parked_at_home(s),
        0 <= k < links_collected(s, peers, n).1.len(),
    ensures
        ({
            let w = links_collected(s, peers, n).1[k];
            &&& w.reason == FlowExitReason::Link
            &&& w.outcome == OutcomeView::Failed("linked exit (link)"@)
            &&& exists|i: int| 0 <= i < n && (#[trigger] peers[i]).1 == w.flow.id
        }),
    decreases n,
{
    let m = (n - 1) as nat;
    let (u, work) = links_collected(s, peers, m);
    collecting_keeps_homes(s, peers, m);
    let (t, taken) = extracted(u, peers[n - 1].1, FlowExitReason::Link);
    if k < work.len() {
        peers_follow_as_linked(s, peers, m, k);
        let i = choose|i: int| 0 <= i < m && (#[trigger] peers[i]).1 == work[k].flow.id;
        assert(peers[i].1 == work[k].flow.id);
    } else {
        extraction_is_exact(u, peers[n - 1].1, FlowExitReason::Link, 0);
        assert(peers[n - 1].1 == taken.unwrap().id);
    }
}

proof fn collecting_keeps_homes(s: SharedView, peers: Seq<(LinkId, FlowId)>, n: nat)
    requires
        super::places::parked_at_home(s),
    ensures
        super::places::parked_at_home(links_collected(s, peers, n).0),
    decreases n,
{
    if n > 0 {
        collecting_keeps_homes(s, peers, (n - 1) as nat);
    }
}

/// A flow at the other end of a link of a flow that ended abnormally is marked to
/// end as linked.
pub proof fn linked_flows_are_marked(s: SharedView, p: PendingView, e: LinkEntry)
    requires
        p.reason != FlowExitReason::Normal,
        s.links.entries.contains(e),
        e.a == p.flow.id || e.b == p.flow.id,
        e.a != e.b,
    ensures
        ({
            let t = one_finalized(s, p).0;
            let peer = if e.a == p.flow.id {
                e.b
            } else {
                e.a
            };
            s.directory.dom().contains(peer.0) ==> t.kills.dom().contains(peer.0)
                && t.kills[peer.0] == FlowExitReason::Link
        }),
{
    let id = p.flow.id;
    let peer = e.peer_of(id);
    steps_of_an_end(s, p);
    let closed = mailbox_closed(unmarked(s, id), id).0;
    let gone = forgotten(orphans_released(closed, id, p.reason), id);
    let told = monitors_told(gone, id, p.reason);
    let joined = told.links.entries.filter(|x: LinkEntry| x.joins(id));
    filter_is_exact(told.links.entries, |x: LinkEntry| x.joins(id), e);
    let peers = told.links.peers(id);
    let k = choose|k: int| 0 <= k < joined.len() && joined[k] == e;
    assert(peers[k] == (e.link, peer));
    if s.directory.dom().contains(peer.0) {
        let cut = SharedView { links: told.links.without(id), ..told };
        collecting_marks(cut, peers, peers.len(), k);
    }
}

proof fn collecting_marks(s: SharedView, peers: Seq<(LinkId, FlowId)>, n: nat, k: int)
    requires
        n <= peers.len(),
        0 <= k < n,
        s.directory.dom().contains(peers[k].1.0),
    ensures
        links_collected(s, peers, n).0.kills.dom().contains(peers[k].1.0),
        links_collected(s, peers, n).0.kills[peers[k].1.0] == FlowExitReason::Link,
    decreases n,
{
    let m = (n - 1) as nat;
    collecting_touches(s, peers, m);
    if k < m {
        collecting_marks(s, peers, m, k);
    }
}

} // verus!
