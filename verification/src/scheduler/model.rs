//! The state of the scheduler, and what each of its operations does to it.

use vstd::prelude::*;

use super::capability::{CapEntry, CapRights, CapTableView};
use super::delegate::DelegateError;
use super::error::{LifecycleError, SpawnErrorView};
use super::link::{LinkId, LinksView};
use super::mailbox::policy::MailboxConfig;
use super::mailbox::queue::MailboxFullReason;
use super::mailbox::{DeliveryView, MailboxView, WaitFilter};
use super::metrics::RuntimeMetrics;
use super::monitor::{DownEvent, FlowExitReason, MonitorRef, MonitorsView};
use super::process::{
    FlowId, FlowMetrics, FlowView, IdsView, OutcomeView, PendingSend, RestartPolicy,
};
use super::registry::{names_without, NameView};
use super::timer::{PayloadView, TimerEntryView, TimerView};
use super::waits::{found, AskView};
use crate::bytecode::cap::Cap;
use crate::bytecode::chunk::Chunk;
use crate::bytecode::value::{Message, Value};
use crate::text::dec;
use crate::vm::native::NativeFn;
use crate::vm::result::VmResultView;
use crate::vm::semantics::{enter, lookup, VmView};

verus! {

/// The queue that a flow which can run goes to.
#[derive(Clone, Copy, Debug, PartialEq, Eq, Structural)]
pub enum Lane {
    /// That of the worker at hand.
    Local,
    /// The one that all workers share.
    Global,
}

/// The end of a flow, as its joiner and its supervisor hear of it.
#[verifier::ext_equal]
pub struct EndingView {
    pub id: FlowId,
    pub outcome: OutcomeView,
    pub supervisor: Option<u64>,
}

/// A flow that is about to end.
#[verifier::ext_equal]
pub struct PendingView {
    pub flow: FlowView,
    pub outcome: OutcomeView,
    pub reason: FlowExitReason,
}

/// The state of the scheduler.
#[verifier::ext_equal]
pub struct SharedView {
    /// Mailbox of each live flow.
    pub directory: Map<u64, MailboxView>,
    pub caps: CapTableView,
    pub monitors: MonitorsView,
    pub links: LinksView,
    pub registry: Seq<NameView>,
    /// Flows that end when they next get a worker.
    pub kills: Map<u64, FlowExitReason>,
    /// For each flow that waits for room, whose mailbox is full.
    pub waiting_send: Map<u64, u64>,
    /// Who waits for whose reply.
    pub asks: AskView,
    pub timer: TimerView,
    pub metrics: RuntimeMetrics,
    pub quantum: u32,
    pub mailbox: MailboxConfig,
    /// Most flows that may be alive; 0 for no limit.
    pub max_flows: u32,
    /// Flows that became able to run, in order.
    pub ready: Seq<(Lane, FlowView)>,
    /// Flows that ended, in order.
    pub endings: Seq<EndingView>,
}

impl SharedView {
    /// No flows yet.
    pub open spec fn idle(quantum: u32, mailbox: MailboxConfig, max_flows: u32) -> SharedView {
        SharedView {
            directory: Map::empty(),
            caps: CapTableView { entries: Map::empty() },
            monitors: MonitorsView { entries: Seq::empty(), next: 1 },
            links: LinksView { entries: Seq::empty(), next: 1 },
            registry: Seq::empty(),
            kills: Map::empty(),
            waiting_send: Map::empty(),
            asks: AskView::empty(),
            timer: TimerView { entries: Seq::empty(), shutdown: false },
            metrics: RuntimeMetrics::zero(),
            quantum,
            mailbox,
            max_flows,
            ready: Seq::empty(),
            endings: Seq::empty(),
        }
    }

    pub open spec fn with_mailbox(self, id: FlowId, m: MailboxView) -> SharedView {
        SharedView { directory: self.directory.insert(id.0, m), ..self }
    }

    pub open spec fn made_ready(self, lane: Lane, f: FlowView) -> SharedView {
        SharedView { ready: self.ready.push((lane, f)), ..self }
    }

    pub open spec fn mailbox_of(self, id: FlowId) -> Option<MailboxView> {
        found(self.directory, id.0)
    }

    pub open spec fn alive(self, id: FlowId) -> bool {
        self.directory.dom().contains(id.0)
    }

    /// A flow that waited for a message got `v` from mailbox `id`.
    pub open spec fn awakened(self, id: FlowId, m: MailboxView, lane: Lane, f: FlowView, v: Value) -> SharedView {
        SharedView { asks: self.asks.detached(f.id.0), ..self.with_mailbox(id, m) }.made_ready(
            lane,
            f.received(v),
        )
    }
}

// ---- the end of a flow --------------------------------------------------

/// One flow that waited for the reply of a flow that ended gets `hop` instead.
pub open spec fn orphan_woken(s: SharedView, asker: FlowId, hop: Value) -> SharedView {
    match s.mailbox_of(asker) {
        None => s,
        Some(m) => {
            let t = s.with_mailbox(asker, m.unparked());
            match m.parked {
                None => t,
                Some(f) => t.made_ready(Lane::Global, f.received(hop)),
            }
        },
    }
}

/// The same for the first `n` of them.
pub open spec fn orphans_woken(s: SharedView, askers: Seq<u64>, hop: Value, n: nat) -> SharedView
    decreases n,
{
    if n == 0 {
        s
    } else {
        orphan_woken(orphans_woken(s, askers, hop, (n - 1) as nat), FlowId(askers[n - 1]), hop)
    }
}

/// All who wait for the reply of `id` learn that it ended.
pub open spec fn orphans_released(s: SharedView, id: FlowId, reason: FlowExitReason) -> SharedView {
    let askers = s.asks.waiters(id.0);
    let hop = Value::Message(Message::linked_exit_spec(id.0, reason.code()));
    orphans_woken(SharedView { asks: s.asks.released(id.0), ..s }, askers, hop, askers.len())
}

/// A monitor's owner is told that the target ended. It is told even if its
/// mailbox is full.
pub open spec fn down_delivered(s: SharedView, e: DownEvent) -> SharedView {
    let hop = Value::Message(Message::down_spec(e.monitor.0, e.target.0, e.reason.code()));
    match s.mailbox_of(e.owner) {
        None => s,
        Some(m) => match m.pushed_system(hop) {
            (after, DeliveryView::Handoff(f)) => s.awakened(e.owner, after, Lane::Global, f, hop),
            (after, _) => s.with_mailbox(e.owner, after),
        },
    }
}

pub open spec fn downs_delivered(s: SharedView, events: Seq<DownEvent>, n: nat) -> SharedView
    decreases n,
{
    if n == 0 {
        s
    } else {
        down_delivered(downs_delivered(s, events, (n - 1) as nat), events[n - 1])
    }
}

/// Mark a flow to be killed, and take it out of where it waits. A flow that
/// does not wait for a message or for room is left to its worker.
pub open spec fn extracted(s: SharedView, id: FlowId, reason: FlowExitReason) -> (
    SharedView,
    Option<FlowView>,
) {
    match s.mailbox_of(id) {
        None => (s, None),
        Some(m) => {
            let t = SharedView { kills: s.kills.insert(id.0, reason), ..s }.with_mailbox(
                id,
                m.unparked(),
            );
            match m.parked {
                Some(f) => (t, Some(f)),
                None => match found(t.waiting_send, id.0) {
                    None => (t, None),
                    Some(target) => match t.mailbox_of(FlowId(target)) {
                        None => (t, None),
                        Some(b) => {
                            let i = b.sender_index(id, 0);
                            if i < b.waiting.len() {
                                (
                                    SharedView {
                                        waiting_send: t.waiting_send.remove(id.0),
                                        ..t.with_mailbox(
                                            FlowId(target),
                                            MailboxView {
                                                waiting: b.waiting.remove(i as int),
                                                ..b
                                            },
                                        )
                                    },
                                    Some(b.waiting[i as int].0),
                                )
                            } else {
                                (t, None)
                            }
                        },
                    },
                },
            }
        },
    }
}

/// The flows linked to one that ended abnormally end too.
pub open spec fn links_collected(s: SharedView, peers: Seq<(LinkId, FlowId)>, n: nat) -> (
    SharedView,
    Seq<PendingView>,
)
    decreases n,
{
    if n == 0 {
        (s, Seq::empty())
    } else {
        let (t, work) = links_collected(s, peers, (n - 1) as nat);
        match extracted(t, peers[n - 1].1, FlowExitReason::Link) {
            (u, Some(flow)) => (
                u,
                work.push(
                    PendingView {
                        flow,
                        outcome: OutcomeView::Failed("linked exit (link)"@),
                        reason: FlowExitReason::Link,
                    },
                ),
            ),
            (u, None) => (u, work),
        }
    }
}

/// The senders that waited for room in a mailbox that closed end too.
pub open spec fn stranded(waiting: Seq<(FlowView, Value)>, id: FlowId) -> Seq<PendingView> {
    waiting.map_values(
        |p: (FlowView, Value)|
            PendingView {
                flow: p.0,
                outcome: OutcomeView::Failed("send target "@ + id.spec_text() + " exited"@),
                reason: FlowExitReason::Fault,
            },
    )
}

/// The waits for room without those of the first `n` senders.
pub open spec fn sends_dropped(w: Map<u64, u64>, waiting: Seq<(FlowView, Value)>, n: nat) -> Map<
    u64,
    u64,
>
    decreases n,
{
    if n == 0 {
        w
    } else {
        sends_dropped(w, waiting, (n - 1) as nat).remove(waiting[n - 1].0.id.0)
    }
}

/// Close the mailbox of a flow that ends; the senders that waited for room in
/// it are stranded.
pub open spec fn mailbox_closed(s: SharedView, id: FlowId) -> (SharedView, Seq<PendingView>) {
    match s.mailbox_of(id) {
        None => (s, Seq::empty()),
        Some(m) => (
            SharedView {
                waiting_send: sends_dropped(s.waiting_send, m.waiting, m.waiting.len()),
                ..s.with_mailbox(id, MailboxView { closed: true, waiting: Seq::empty(), ..m })
            },
            stranded(m.waiting, id),
        ),
    }
}

/// Nothing in the tables speaks of the flow any more: no capability reaches
/// it, it has no mailbox, owns no monitor, has no name, and waits for nothing.
pub open spec fn forgotten(s: SharedView, id: FlowId) -> SharedView {
    SharedView {
        caps: s.caps.without_target(id),
        directory: s.directory.remove(id.0),
        monitors: s.monitors.without_owner(id),
        registry: names_without(s.registry, id),
        ..s
    }
}

/// The flow's own marks are cleared.
pub open spec fn unmarked(s: SharedView, id: FlowId) -> SharedView {
    SharedView {
        kills: s.kills.remove(id.0),
        waiting_send: s.waiting_send.remove(id.0),
        asks: s.asks.detached(id.0),
        ..s
    }
}

/// The monitors of the flow report its end.
pub open spec fn monitors_told(s: SharedView, id: FlowId, reason: FlowExitReason) -> SharedView {
    let events = s.monitors.downs(id, reason);
    downs_delivered(
        SharedView { monitors: s.monitors.without_target(id), ..s },
        events,
        events.len(),
    )
}

/// The links of the flow are gone; if it ended abnormally, its peers follow.
pub open spec fn links_cut(s: SharedView, id: FlowId, reason: FlowExitReason) -> (
    SharedView,
    Seq<PendingView>,
) {
    let peers = s.links.peers(id);
    let t = SharedView { links: s.links.without(id), ..s };
    if reason.abnormal() {
        links_collected(t, peers, peers.len())
    } else {
        (t, Seq::empty())
    }
}

/// The outcome is counted and announced.
pub open spec fn announced(s: SharedView, p: PendingView) -> SharedView {
    SharedView {
        metrics: if p.outcome is Completed {
            RuntimeMetrics {
                processes_completed: s.metrics.processes_completed.wrapping_add(1),
                ..s.metrics
            }
        } else {
            RuntimeMetrics {
                processes_failed: s.metrics.processes_failed.wrapping_add(1),
                ..s.metrics
            }
        },
        endings: s.endings.push(
            EndingView { id: p.flow.id, outcome: p.outcome, supervisor: p.flow.supervisor },
        ),
        ..s
    }
}

/// One flow ends. The flows that have to end with it are returned.
pub open spec fn one_finalized(s: SharedView, p: PendingView) -> (SharedView, Seq<PendingView>) {
    let id = p.flow.id;
    let (closed, senders) = mailbox_closed(unmarked(s, id), id);
    let gone = forgotten(orphans_released(closed, id, p.reason), id);
    let (cut, peers) = links_cut(monitors_told(gone, id, p.reason), id, p.reason);
    (announced(cut, p), senders + peers)
}

/// All flows of a work list end, and all that have to end with them, the last
/// of the list first.
pub open spec fn all_finalized(s: SharedView, work: Seq<PendingView>) -> SharedView
    decreases s.directory.dom().len(), s.links.entries.len(), work.len(),
    when s.directory.dom().finite()
    via all_finalized_ends
{
    if work.len() == 0 {
        s
    } else {
        let (t, more) = one_finalized(s, work.last());
        all_finalized(t, work.drop_last() + more)
    }
}

#[via_fn]
proof fn all_finalized_ends(s: SharedView, work: Seq<PendingView>) {
    if work.len() > 0 {
        finalizing_shrinks(s, work.last());
    }
}

/// A flow ends with an outcome.
pub open spec fn finished(
    s: SharedView,
    flow: FlowView,
    outcome: OutcomeView,
    reason: FlowExitReason,
) -> SharedView {
    all_finalized(s, seq![PendingView { flow, outcome, reason }])
}

/// A flow fails.
pub open spec fn failed(s: SharedView, flow: FlowView, text: Seq<char>) -> SharedView {
    finished(s, flow, OutcomeView::Failed(text), FlowExitReason::Fault)
}

/// Kill a flow: at once if it waits, else when it next gets a worker.
pub open spec fn kill_requested(s: SharedView, id: FlowId, reason: FlowExitReason) -> SharedView {
    match extracted(s, id, reason) {
        (t, Some(flow)) => finished(
            t,
            flow,
            OutcomeView::Failed("killed ("@ + reason.spec_text()@ + ")"@),
            reason,
        ),
        (t, None) => t,
    }
}

/// Waking changes no set of live flows and no link.
proof fn waking_keeps_flows(s: SharedView, askers: Seq<u64>, hop: Value, n: nat)
    ensures
        orphans_woken(s, askers, hop, n).directory.dom() == s.directory.dom(),
        orphans_woken(s, askers, hop, n).links == s.links,
        orphans_woken(s, askers, hop, n).monitors == s.monitors,
    decreases n,
{
    if n > 0 {
        waking_keeps_flows(s, askers, hop, (n - 1) as nat);
        let t = orphans_woken(s, askers, hop, (n - 1) as nat);
        assert(orphan_woken(t, FlowId(askers[n - 1]), hop).directory.dom() =~= t.directory.dom());
    }
}

proof fn downs_keep_flows(s: SharedView, events: Seq<DownEvent>, n: nat)
    ensures
        downs_delivered(s, events, n).directory.dom() == s.directory.dom(),
        downs_delivered(s, events, n).links == s.links,
    decreases n,
{
    if n > 0 {
        downs_keep_flows(s, events, (n - 1) as nat);
        let t = downs_delivered(s, events, (n - 1) as nat);
        assert(down_delivered(t, events[n - 1]).directory.dom() =~= t.directory.dom());
    }
}

proof fn extraction_keeps_flows(s: SharedView, id: FlowId, reason: FlowExitReason)
    ensures
        extracted(s, id, reason).0.directory.dom() == s.directory.dom(),
        extracted(s, id, reason).0.links == s.links,
{
    assert(extracted(s, id, reason).0.directory.dom() =~= s.directory.dom());
}

proof fn collecting_keeps_flows(s: SharedView, peers: Seq<(LinkId, FlowId)>, n: nat)
    ensures
        links_collected(s, peers, n).0.directory.dom() == s.directory.dom(),
        links_collected(s, peers, n).0.links == s.links,
        links_collected(s, peers, n).1.len() <= n,
    decreases n,
{
    if n > 0 {
        collecting_keeps_flows(s, peers, (n - 1) as nat);
        let t = links_collected(s, peers, (n - 1) as nat).0;
        extraction_keeps_flows(t, peers[n - 1].1, FlowExitReason::Link);
    }
}

/// Ending a flow leaves fewer live flows, or the same flows and fewer links,
/// or nothing more to end.
pub proof fn finalizing_shrinks(s: SharedView, p: PendingView)
    requires
        s.directory.dom().finite(),
    ensures
        ({
            let (t, more) = one_finalized(s, p);
            &&& t.directory.dom() == s.directory.dom().remove(p.flow.id.0)
            &&& t.directory.dom().finite()
            &&& t.links == s.links.without(p.flow.id)
            &&& s.alive(p.flow.id) ==> t.directory.dom().len() < s.directory.dom().len()
            &&& !s.alive(p.flow.id) ==> {
                &&& t.directory.dom().len() == s.directory.dom().len()
                &&& t.links.entries.len() < s.links.entries.len() || (t.links.entries.len()
                    == s.links.entries.len() && more.len() == 0)
            }
        }),
{
    let id = p.flow.id;
    let u = unmarked(s, id);
    let (closed, senders) = mailbox_closed(u, id);
    assert(closed.directory.dom() =~= s.directory.dom());
    let askers = closed.asks.waiters(id.0);
    let hop = Value::Message(Message::linked_exit_spec(id.0, p.reason.code()));
    let released = orphans_released(closed, id, p.reason);
    waking_keeps_flows(
        SharedView { asks: closed.asks.released(id.0), ..closed },
        askers,
        hop,
        askers.len(),
    );
    let gone = forgotten(released, id);
    assert(gone.directory.dom() =~= s.directory.dom().remove(id.0));
    let events = gone.monitors.downs(id, p.reason);
    let told = monitors_told(gone, id, p.reason);
    downs_keep_flows(
        SharedView { monitors: gone.monitors.without_target(id), ..gone },
        events,
        events.len(),
    );
    let peers = told.links.peers(id);
    super::link::dropping_links_shrinks(told.links, id);
    let cut = SharedView { links: told.links.without(id), ..told };
    collecting_keeps_flows(cut, peers, peers.len());
    let (t, more) = one_finalized(s, p);
    assert(t.directory.dom() == s.directory.dom().remove(id.0));
    if !s.alive(id) {
        assert(s.directory.dom().remove(id.0) =~= s.directory.dom());
        assert(senders.len() == 0);
    }
}

// ---- messages -----------------------------------------------------------

/// Deliver `v` to a flow: whether its mailbox was full. A message for a flow
/// that is gone is dropped without a word.
pub open spec fn delivered(s: SharedView, lane: Lane, target: FlowId, v: Value) -> (
    SharedView,
    Option<MailboxFullReason>,
) {
    match s.mailbox_of(target) {
        None => (s, None),
        Some(m) => match m.pushed(v) {
            (after, DeliveryView::Handoff(f)) => (s.awakened(target, after, lane, f, v), None),
            (after, DeliveryView::Full(cause)) => (s.with_mailbox(target, after), Some(cause)),
            (after, _) => (s.with_mailbox(target, after), None),
        },
    }
}

/// The flow waits for a message in its mailbox, or goes on with one that is
/// there already.
pub open spec fn parked_on_mailbox(
    s: SharedView,
    now: u64,
    flow: FlowView,
    dest_reg: u8,
    timeout: Option<u64>,
    filter: WaitFilter,
) -> SharedView {
    match s.mailbox_of(flow.id) {
        None => failed(s, flow, "mailbox gone"@),
        Some(m) => match m.popped(filter) {
            (after, Some(v)) => s.with_mailbox(flow.id, after).made_ready(
                Lane::Global,
                FlowView { pending_message: None, ..flow }.received_at(dest_reg, v),
            ),
            (_, None) => {
                let t = s.with_mailbox(flow.id, m.parked_with(flow, filter));
                match timeout {
                    None => t,
                    Some(delay) => SharedView {
                        timer: t.timer.limited(
                            now,
                            delay,
                            flow.id,
                            dest_reg,
                            m.epoch.wrapping_add(1),
                        ),
                        ..t
                    },
                }
            },
        },
    }
}

/// What an asker gets whose target is gone.
pub open spec fn gone_notice(target: FlowId) -> Value {
    Value::Message(Message::linked_exit_spec(target.0, FlowExitReason::Fault.code()))
}

/// The flow waits for the reply of `target`, goes on with one that is there
/// already, or learns that the target is gone.
pub open spec fn parked_for_reply(
    s: SharedView,
    now: u64,
    flow: FlowView,
    dest_reg: u8,
    timeout: Option<u64>,
    filter: WaitFilter,
    target: FlowId,
) -> SharedView {
    let asking = SharedView { asks: s.asks.attached(flow.id.0, target.0), ..s };
    let free = SharedView { asks: asking.asks.detached(flow.id.0), ..s };
    match s.mailbox_of(flow.id) {
        None => failed(free, flow, "mailbox gone"@),
        Some(m) => match m.popped(filter) {
            (after, Some(v)) => free.with_mailbox(flow.id, after).made_ready(
                Lane::Global,
                FlowView { pending_message: None, ..flow }.received_at(dest_reg, v),
            ),
            (_, None) => if !s.alive(target) {
                free.with_mailbox(flow.id, m.parked_with(flow, filter).unparked()).made_ready(
                    Lane::Global,
                    flow.received_at(dest_reg, gone_notice(target)),
                )
            } else {
                let t = asking.with_mailbox(flow.id, m.parked_with(flow, filter));
                match timeout {
                    None => t,
                    Some(delay) => SharedView {
                        timer: t.timer.limited(
                            now,
                            delay,
                            flow.id,
                            dest_reg,
                            m.epoch.wrapping_add(1),
                        ),
                        ..t
                    },
                }
            },
        },
    }
}

/// The flow waits for room in the mailbox of `target`; if that is gone, the
/// flow fails.
pub open spec fn parked_for_room(
    s: SharedView,
    flow: FlowView,
    target: FlowId,
    v: Value,
    pending: PendingSend,
) -> SharedView {
    let f = FlowView { pending_send: Some(pending), ..flow };
    let unable = failed(
        SharedView { waiting_send: s.waiting_send.insert(f.id.0, target.0).remove(f.id.0), ..s },
        f,
        "send target gone"@,
    );
    match s.mailbox_of(target) {
        None => unable,
        Some(m) => if m.closed {
            unable
        } else {
            SharedView {
                waiting_send: s.waiting_send.insert(f.id.0, target.0),
                ..s.with_mailbox(target, MailboxView { waiting: m.waiting.push((f, v)), ..m })
            }
        },
    }
}

/// There may be room in the mailbox of `owner`: the first sender that waits
/// for it gets its message in and goes on.
pub open spec fn room_given(s: SharedView, now: u64, lane: Lane, owner: FlowId) -> SharedView {
    match s.mailbox_of(owner) {
        None => s,
        Some(m) => match m.admitted() {
            (after, None) => s.with_mailbox(owner, after),
            (after, Some(sender)) => {
                let t = SharedView {
                    waiting_send: s.waiting_send.remove(sender.id.0),
                    ..s.with_mailbox(owner, after)
                };
                let f = FlowView { pending_send: None, ..sender };
                match sender.pending_send {
                    Some(
                        PendingSend::Ask { dest_reg, expect_request_id, expect_sender, timeout },
                    ) => parked_for_reply(
                        t,
                        now,
                        f,
                        dest_reg,
                        timeout,
                        WaitFilter::Correlation {
                            expect_request_id,
                            expect_sender: Some(expect_sender),
                        },
                        FlowId(expect_sender),
                    ),
                    _ => t.made_ready(lane, f),
                }
            },
        },
    }
}

/// A deadline has come.
pub open spec fn fired(s: SharedView, e: TimerEntryView) -> SharedView {
    match e.payload {
        PayloadView::WakeSleeper(f) => s.made_ready(Lane::Global, f),
        PayloadView::WakeReceiver { pid, dest_reg, epoch } => match s.mailbox_of(pid) {
            None => s,
            Some(m) => if m.epoch != epoch {
                s
            } else {
                let t = s.with_mailbox(pid, m.unparked());
                match m.parked {
                    None => t,
                    Some(f) => SharedView { asks: t.asks.detached(f.id.0), ..t }.made_ready(
                        Lane::Global,
                        f.resumed(dest_reg, Value::Unit),
                    ),
                }
            },
        },
    }
}

// ---- capabilities -------------------------------------------------------

/// The flow behind a capability with any rights.
pub open spec fn cap_target(s: SharedView, raw: u64) -> Result<FlowId, Seq<char>> {
    match s.caps.resolved(raw) {
        Some(e) => Ok(e.flow),
        None => Err("unknown or revoked capability cap#"@ + dec(raw as nat)),
    }
}

/// The flow behind a capability with the needed rights.
pub open spec fn cap_target_for(s: SharedView, raw: u64, need: CapRights) -> Result<
    FlowId,
    Seq<char>,
> {
    match s.caps.resolved(raw) {
        Some(e) => if e.rights.includes(need) {
            Ok(e.flow)
        } else {
            Err("capability cap#"@ + dec(raw as nat) + " lacks required rights"@)
        },
        None => Err("unknown or revoked capability cap#"@ + dec(raw as nat)),
    }
}

/// A message as it leaves a flow: the sender is the flow, whatever stood there
/// before, and the reply capability is a new one that can only send to it.
pub open spec fn stamped(s: SharedView, ids: IdsView, flow: FlowId, m: Message) -> (
    SharedView,
    Message,
) {
    (
        SharedView { caps: s.caps.minted(ids.cap, flow, CapRights::send()), ..s },
        m.authenticated(flow.0, ids.cap),
    )
}

/// A narrowed copy of what a capability grants.
pub open spec fn delegated(
    e: Option<CapEntry>,
    want_rights: CapRights,
    with_mask: bool,
) -> Result<CapEntry, DelegateError> {
    match e {
        None => Err(DelegateError::SourceRevoked),
        Some(e) => if with_mask && !e.rights.includes(CapRights::native()) {
            Err(DelegateError::SourceLacksNative)
        } else {
            Ok(CapEntry { flow: e.flow, rights: e.rights.common(want_rights) })
        },
    }
}

// ---- new flows ----------------------------------------------------------

/// No more flows may be alive.
pub open spec fn crowded(s: SharedView) -> bool {
    s.max_flows > 0 && s.directory.dom().len() >= s.max_flows
}

/// Start a flow.
pub open spec fn spawned(
    s: SharedView,
    ids: IdsView,
    chunk: Chunk,
    natives: Seq<Option<(Seq<char>, NativeFn)>>,
    gate: Seq<bool>,
    function: u32,
    args: Seq<Value>,
    restart_policy: RestartPolicy,
    supervisor: Option<u64>,
) -> (SharedView, Result<FlowId, SpawnErrorView>) {
    if crowded(s) {
        (
            s,
            Err(
                SpawnErrorView::FlowLimit {
                    current: s.directory.dom().len() as usize,
                    max: s.max_flows,
                },
            ),
        )
    } else {
        let id = FlowId(ids.flow);
        match lookup(chunk, function) {
            Err(f) => (s, Err(SpawnErrorView::from_fault(f))),
            Ok(def) => match enter(def, function, args, None) {
                Err(f) => (s, Err(SpawnErrorView::from_fault(f))),
                Ok(frame) => (
                    SharedView {
                        metrics: RuntimeMetrics {
                            processes_spawned: s.metrics.processes_spawned.wrapping_add(1),
                            ..s.metrics
                        },
                        ..s.with_mailbox(id, MailboxView::fresh(s.mailbox))
                    }.made_ready(
                        Lane::Global,
                        FlowView::fresh(
                            id,
                            VmView { chunk, natives, gate, frames: seq![frame], executed: 0 },
                            restart_policy,
                            supervisor,
                        ),
                    ),
                    Ok(id),
                ),
            },
        }
    }
}

/// The identities after a start, which draws one even if it then fails, unless
/// no more flows may be alive.
pub open spec fn spawned_ids(s: SharedView, ids: IdsView) -> IdsView {
    if crowded(s) {
        ids
    } else {
        ids.flow_drawn()
    }
}

/// Which natives a child may call: those of its parent, or none if it is
/// started with rights that do not include native calls.
pub open spec fn child_gate(parent: VmView, requested: CapRights) -> Seq<bool> {
    if requested.bits == 0 || requested.includes(CapRights::native()) {
        parent.gate
    } else {
        Seq::new(parent.natives.len(), |i: int| false)
    }
}

// ---- what a flow stopped for --------------------------------------------

/// A flow gets a capability for `target` in a register and goes on.
pub open spec fn cap_granted(
    s: SharedView,
    ids: IdsView,
    flow: FlowView,
    dest_reg: u8,
    target: FlowId,
    rights: CapRights,
) -> (SharedView, Option<FlowView>) {
    (
        SharedView { caps: s.caps.minted(ids.cap, target, rights), ..s },
        Some(flow.resumed(dest_reg, Value::Cap(ids.cap))),
    )
}

/// A number as an integer value, the largest one if it does not fit.
pub open spec fn int_of(n: u64) -> Value {
    Value::Int(
        if n <= i64::MAX {
            n as i64
        } else {
            i64::MAX
        },
    )
}

/// The reference in a register of the innermost frame: a non-negative integer.
pub open spec fn reference_in(flow: FlowView, reg: u8) -> Option<u64> {
    if flow.vm.frames.len() > 0 && reg < flow.vm.frames.last().registers.len() {
        match flow.vm.frames.last().registers[reg as int] {
            Value::Int(n) => if n >= 0 {
                Some(n as u64)
            } else {
                None
            },
            _ => None,
        }
    } else {
        None
    }
}

pub open spec fn sent_counted(s: SharedView) -> SharedView {
    SharedView {
        metrics: RuntimeMetrics {
            messages_sent: s.metrics.messages_sent.wrapping_add(1),
            ..s.metrics
        },
        ..s
    }
}

pub open spec fn after_send(
    s: SharedView,
    ids: IdsView,
    flow: FlowView,
    target_cap: u64,
    message: Value,
) -> (SharedView, Option<FlowView>) {
    match message.spec_as_message() {
        None => (failed(s, flow, "Send invariant broken: hop is not Value::Message"@), None),
        Some(m) => match cap_target_for(s, target_cap, CapRights::send()) {
            Err(e) => (failed(s, flow, e), None),
            Ok(target) => {
                let (t, hop) = stamped(s, ids, flow.id, m);
                let f = flow.counted_sent();
                match delivered(sent_counted(t), Lane::Local, target, Value::Message(hop)) {
                    (u, None) => (u, Some(f)),
                    (u, Some(_)) => (
                        parked_for_room(
                            u,
                            f,
                            target,
                            Value::Message(hop),
                            PendingSend::FireAndForget,
                        ),
                        None,
                    ),
                }
            },
        },
    }
}

/// The identities after a message was sent or asked with.
pub open spec fn after_hop_ids(
    s: SharedView,
    ids: IdsView,
    target_cap: u64,
    message: Value,
    need: CapRights,
) -> IdsView {
    if message.spec_as_message() is Some && cap_target_for(s, target_cap, need) is Ok {
        ids.cap_drawn()
    } else {
        ids
    }
}

pub open spec fn after_receive(
    s: SharedView,
    now: u64,
    flow: FlowView,
    dest_reg: u8,
    timeout: Option<u64>,
    match_tag: Option<u16>,
) -> (SharedView, Option<FlowView>) {
    let f = FlowView { last_receive_dest: Some(dest_reg), ..flow };
    let filter = match match_tag {
        None => WaitFilter::Any,
        Some(tag) => WaitFilter::Tag(tag),
    };
    match s.mailbox_of(f.id) {
        None => (failed(s, f, "mailbox gone"@), None),
        Some(m) => match m.popped(filter) {
            (after, Some(v)) => (
                room_given(s.with_mailbox(f.id, after), now, Lane::Local, f.id),
                Some(f.received_at(dest_reg, v)),
            ),
            (_, None) => (parked_on_mailbox(s, now, f, dest_reg, timeout, filter), None),
        },
    }
}

pub open spec fn after_ask(
    s: SharedView,
    ids: IdsView,
    now: u64,
    flow: FlowView,
    dest_reg: u8,
    target_cap: u64,
    request: Value,
    timeout: Option<u64>,
) -> (SharedView, Option<FlowView>) {
    match request.spec_as_message() {
        None => (failed(s, flow, "Ask invariant broken: request is not Value::Message"@), None),
        Some(m) => match cap_target_for(s, target_cap, CapRights::ask()) {
            Err(e) => (failed(s, flow, e), None),
            Ok(target) => {
                let (t, hop) = stamped(s, ids, flow.id, m);
                let f = FlowView { last_receive_dest: Some(dest_reg), ..flow }.counted_sent();
                let filter = WaitFilter::Correlation {
                    expect_request_id: hop.request_id,
                    expect_sender: Some(target.0),
                };
                match delivered(sent_counted(t), Lane::Local, target, Value::Message(hop)) {
                    (u, Some(_)) => (
                        parked_for_room(
                            u,
                            f,
                            target,
                            Value::Message(hop),
                            PendingSend::Ask {
                                dest_reg,
                                expect_request_id: hop.request_id,
                                expect_sender: target.0,
                                timeout,
                            },
                        ),
                        None,
                    ),
                    (u, None) => match u.mailbox_of(f.id) {
                        None => (failed(u, f, "mailbox gone"@), None),
                        Some(b) => match b.popped(filter) {
                            (after, Some(v)) => (
                                u.with_mailbox(f.id, after),
                                Some(f.received_at(dest_reg, v)),
                            ),
                            (_, None) => (
                                parked_for_reply(u, now, f, dest_reg, timeout, filter, target),
                                None,
                            ),
                        },
                    },
                }
            },
        },
    }
}

pub open spec fn after_monitor(s: SharedView, flow: FlowView, dest_reg: u8, target_cap: u64) -> (
    SharedView,
    Option<FlowView>,
) {
    match cap_target(s, target_cap) {
        Err(e) => (failed(s, flow, e), None),
        Ok(target) => if target == flow.id {
            (failed(s, flow, "cannot monitor self"@), None)
        } else {
            (
                SharedView { monitors: s.monitors.created(flow.id, target), ..s },
                Some(flow.resumed(dest_reg, int_of(s.monitors.next))),
            )
        },
    }
}

pub open spec fn after_demonitor(s: SharedView, flow: FlowView, reg: u8) -> (
    SharedView,
    Option<FlowView>,
) {
    match reference_in(flow, reg) {
        None => (failed(s, flow, "demonitor: expected Int ref"@), None),
        Some(raw) => if s.monitors.owns(flow.id, MonitorRef(raw)) {
            (
                SharedView { monitors: s.monitors.dropped(flow.id, MonitorRef(raw)), ..s },
                Some(flow),
            )
        } else {
            (failed(s, flow, LifecycleError::NoSuchRelation.spec_text()), None)
        },
    }
}

pub open spec fn after_link(s: SharedView, flow: FlowView, dest_reg: u8, target_cap: u64) -> (
    SharedView,
    Option<FlowView>,
) {
    match cap_target(s, target_cap) {
        Err(e) => (failed(s, flow, e), None),
        Ok(target) => if target == flow.id {
            (failed(s, flow, "cannot link self"@), None)
        } else {
            (
                SharedView { links: s.links.linked(flow.id, target), ..s },
                Some(flow.resumed(dest_reg, int_of(s.links.next))),
            )
        },
    }
}

pub open spec fn after_unlink(s: SharedView, flow: FlowView, reg: u8) -> (
    SharedView,
    Option<FlowView>,
) {
    match reference_in(flow, reg) {
        None => (failed(s, flow, "unlink: expected Int id"@), None),
        Some(raw) => if s.links.owns(flow.id, LinkId(raw)) {
            (SharedView { links: s.links.dropped(flow.id, LinkId(raw)), ..s }, Some(flow))
        } else {
            (failed(s, flow, LifecycleError::NoSuchRelation.spec_text()), None)
        },
    }
}

pub open spec fn after_delegate(
    s: SharedView,
    ids: IdsView,
    flow: FlowView,
    dest_reg: u8,
    src_cap: u64,
    want_rights: CapRights,
    want_native_cap: Option<u64>,
) -> (SharedView, Option<FlowView>) {
    let mask = match want_native_cap {
        Some(raw) => cap_target(s, raw),
        None => Ok(flow.id),
    };
    match mask {
        Err(e) => (failed(s, flow, e), None),
        Ok(_) => match delegated(s.caps.resolved(src_cap), want_rights, want_native_cap is Some) {
            Err(e) => (failed(s, flow, e.spec_text()@), None),
            Ok(entry) => cap_granted(s, ids, flow, dest_reg, entry.flow, entry.rights),
        },
    }
}

pub open spec fn after_delegate_ids(
    s: SharedView,
    ids: IdsView,
    flow: FlowView,
    src_cap: u64,
    want_rights: CapRights,
    want_native_cap: Option<u64>,
) -> IdsView {
    let masked = want_native_cap matches Some(raw) ==> cap_target(s, raw) is Ok;
    if masked && delegated(s.caps.resolved(src_cap), want_rights, want_native_cap is Some) is Ok {
        ids.cap_drawn()
    } else {
        ids
    }
}

pub open spec fn after_spawn(
    s: SharedView,
    ids: IdsView,
    flow: FlowView,
    function: u32,
    args: Seq<Value>,
    dest_reg: u8,
    requested: CapRights,
) -> (SharedView, Option<FlowView>) {
    match spawned(
        s,
        ids,
        flow.vm.chunk,
        flow.vm.natives,
        child_gate(flow.vm, requested),
        function,
        args,
        flow.restart_policy,
        None,
    ) {
        (t, Ok(child)) => cap_granted(t, ids, flow, dest_reg, child, CapRights::send_ask()),
        (t, Err(e)) => (failed(t, flow, e.spec_text()), None),
    }
}

pub open spec fn after_spawn_ids(
    s: SharedView,
    ids: IdsView,
    flow: FlowView,
    function: u32,
    args: Seq<Value>,
    requested: CapRights,
) -> IdsView {
    let started = spawned(
        s,
        ids,
        flow.vm.chunk,
        flow.vm.natives,
        child_gate(flow.vm, requested),
        function,
        args,
        flow.restart_policy,
        None,
    ).1;
    if started is Ok {
        spawned_ids(s, ids).cap_drawn()
    } else {
        spawned_ids(s, ids)
    }
}

/// The flow gives its worker back.
pub open spec fn yielded(s: SharedView, flow: FlowView) -> SharedView {
    SharedView {
        metrics: RuntimeMetrics {
            reschedules: s.metrics.reschedules.wrapping_add(1),
            ..s.metrics
        },
        ..s
    }.made_ready(
        Lane::Local,
        FlowView {
            metrics: FlowMetrics {
                reschedules: flow.metrics.reschedules.wrapping_add(1),
                ..flow.metrics
            },
            ..flow
        },
    )
}

/// The scheduler answers what a flow stopped for: the new state, and the flow
/// if it goes on at once.
pub open spec fn applied(
    s: SharedView,
    ids: IdsView,
    now: u64,
    flow: FlowView,
    r: VmResultView,
) -> (SharedView, Option<FlowView>) {
    let f = FlowView {
        metrics: FlowMetrics { instructions: flow.vm.executed, ..flow.metrics },
        ..flow
    };
    match r {
        VmResultView::Complete(v) => (
            finished(s, f, OutcomeView::Completed(v), FlowExitReason::Normal),
            None,
        ),
        VmResultView::Trap(fault) => (failed(s, f, fault.spec_text()), None),
        VmResultView::Yield => (yielded(s, f), None),
        VmResultView::Sleep(delay) => (
            SharedView { timer: s.timer.slept(now, delay, f), ..s },
            None,
        ),
        VmResultView::SelfPid { dest_reg } => cap_granted(
            s,
            ids,
            f,
            dest_reg,
            f.id,
            CapRights::send_ask(),
        ),
        VmResultView::Spawn { function, args, dest_reg, requested_rights } => after_spawn(
            s,
            ids,
            f,
            function,
            args,
            dest_reg,
            requested_rights,
        ),
        VmResultView::Send { target_cap, message } => after_send(s, ids, f, target_cap, message),
        VmResultView::Receive { dest_reg, timeout, match_tag } => after_receive(
            s,
            now,
            f,
            dest_reg,
            timeout,
            match_tag,
        ),
        VmResultView::Ask { dest_reg, target_cap, request, timeout } => after_ask(
            s,
            ids,
            now,
            f,
            dest_reg,
            target_cap,
            request,
            timeout,
        ),
        VmResultView::Monitor { dest_reg, target_cap } => after_monitor(s, f, dest_reg, target_cap),
        VmResultView::Demonitor { monitor_reg } => after_demonitor(s, f, monitor_reg),
        VmResultView::Link { dest_reg, target_cap } => after_link(s, f, dest_reg, target_cap),
        VmResultView::Unlink { link_reg } => after_unlink(s, f, link_reg),
        VmResultView::Delegate { dest_reg, src_cap, want_rights, want_native_cap } =>
            after_delegate(s, ids, f, dest_reg, src_cap, want_rights, want_native_cap),
        VmResultView::Native { native, args, dest_reg } => (
            failed(s, f, "host request without an answer"@),
            None,
        ),
        VmResultView::Float { op, lhs, rhs, dest_reg } => (
            failed(s, f, "host request without an answer"@),
            None,
        ),
    }
}

/// The identities after that. A message that is stamped, a child, and a
/// capability that is handed to the flow draw from them.
pub open spec fn applied_ids(s: SharedView, ids: IdsView, flow: FlowView, r: VmResultView) -> IdsView {
    match r {
        VmResultView::SelfPid { .. } => ids.cap_drawn(),
        VmResultView::Spawn { function, args, dest_reg, requested_rights } => after_spawn_ids(
            s,
            ids,
            flow,
            function,
            args,
            requested_rights,
        ),
        VmResultView::Send { target_cap, message } => after_hop_ids(
            s,
            ids,
            target_cap,
            message,
            CapRights::send(),
        ),
        VmResultView::Ask { dest_reg, target_cap, request, timeout } => after_hop_ids(
            s,
            ids,
            target_cap,
            request,
            CapRights::ask(),
        ),
        VmResultView::Delegate { dest_reg, src_cap, want_rights, want_native_cap } =>
            after_delegate_ids(s, ids, flow, src_cap, want_rights, want_native_cap),
        _ => ids,
    }
}

/// A flow gets a worker: it takes the message that is pending for it, and ends
/// at once if it is marked to be killed.
pub open spec fn begun(s: SharedView, flow: FlowView) -> (SharedView, Option<FlowView>) {
    let f = match flow.pending_message {
        Some(v) => FlowView { pending_message: None, ..flow }.received(v),
        None => flow,
    };
    let t = SharedView { kills: s.kills.remove(f.id.0), ..s };
    match found(s.kills, f.id.0) {
        None => (t, Some(f)),
        Some(reason) => (
            finished(
                t,
                f,
                OutcomeView::Failed("linked exit ("@ + reason.spec_text()@ + ")"@),
                reason,
            ),
            None,
        ),
    }
}

} // verus!
