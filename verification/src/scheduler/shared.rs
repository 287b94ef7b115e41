//! The state that the workers, the timer and the host share.
//!
//! The embedder keeps it behind one lock. A flow runs outside the lock; every
//! step that touches more than the flow itself is one call into this state.

use vstd::prelude::*;

use super::capability::CapTable;
use super::directory::Directory;
use super::link::LinkStore;
use super::mailbox::policy::MailboxConfig;
use super::metrics::RuntimeMetrics;
use super::model::{EndingView, Lane, PendingView, SharedView};
use super::monitor::{FlowExitReason, MonitorStore};
use super::process::{Flow, FlowId, FlowOutcome, FlowView};
use super::registry::RegistryStore;
use super::timer::TimerWheel;
use super::waits::{AskWaitIndex, KillSignals, WaitingSendIndex};

verus! {

/// The end of a flow, as its joiner and its supervisor hear of it.
#[derive(Debug)]
pub struct Ending {
    pub id: FlowId,
    pub outcome: FlowOutcome,
    pub supervisor: Option<u64>,
}

impl View for Ending {
    type V = EndingView;

    open spec fn view(&self) -> EndingView {
        EndingView { id: self.id, outcome: self.outcome@, supervisor: self.supervisor }
    }
}

/// A flow that is about to end.
#[derive(Debug)]
pub struct PendingExit {
    pub flow: Box<Flow>,
    pub outcome: FlowOutcome,
    pub reason: FlowExitReason,
}

impl View for PendingExit {
    type V = PendingView;

    open spec fn view(&self) -> PendingView {
        PendingView { flow: (*self.flow)@, outcome: self.outcome@, reason: self.reason }
    }
}

/// What all workers share.
#[derive(Debug)]
pub struct Shared {
    pub directory: Directory,
    pub caps: CapTable,
    pub monitors: MonitorStore,
    pub links: LinkStore,
    pub registry: RegistryStore,
    pub kill_signals: KillSignals,
    pub waiting_send_at: WaitingSendIndex,
    pub ask_waits: AskWaitIndex,
    pub timer: TimerWheel,
    pub metrics: RuntimeMetrics,
    pub quantum: u32,
    pub mailbox: MailboxConfig,
    pub max_flows: u32,
    /// Flows that became able to run and are not in a run queue yet.
    pub ready: Vec<(Lane, Box<Flow>)>,
    /// Ends that nobody was told of yet.
    pub endings: Vec<Ending>,
}

pub open spec fn ready_view(ready: Seq<(Lane, Box<Flow>)>) -> Seq<(Lane, FlowView)> {
    ready.map_values(|p: (Lane, Box<Flow>)| (p.0, (*p.1)@))
}

pub open spec fn endings_view(endings: Seq<Ending>) -> Seq<EndingView> {
    endings.map_values(|e: Ending| e@)
}

pub open spec fn pending_view(work: Seq<PendingExit>) -> Seq<PendingView> {
    work.map_values(|p: PendingExit| p@)
}

impl View for Shared {
    type V = SharedView;

    open spec fn view(&self) -> SharedView {
        SharedView {
            directory: self.directory@,
            caps: self.caps@,
            monitors: self.monitors@,
            links: self.links@,
            registry: self.registry@,
            kills: self.kill_signals@,
            waiting_send: self.waiting_send_at@,
            asks: self.ask_waits@,
            timer: self.timer@,
            metrics: self.metrics,
            quantum: self.quantum,
            mailbox: self.mailbox,
            max_flows: self.max_flows,
            ready: ready_view(self.ready@),
            endings: endings_view(self.endings@),
        }
    }
}

impl Shared {
    /// A state without flows.
    pub fn new(quantum: u32, mailbox: MailboxConfig, max_flows: u32) -> (s: Shared)
        ensures
            s@ == SharedView::idle(quantum, mailbox, max_flows),
    {
        let s = Shared {
            directory: Directory::new(),
            caps: CapTable::new(),
            monitors: MonitorStore::new(),
            links: LinkStore::new(),
            registry: RegistryStore::new(),
            kill_signals: KillSignals::new(),
            waiting_send_at: WaitingSendIndex::new(),
            ask_waits: AskWaitIndex::new(),
            timer: TimerWheel::new(),
            metrics: RuntimeMetrics::default(),
            quantum,
            mailbox,
            max_flows,
            ready: Vec::new(),
            endings: Vec::new(),
        };
        assert(s@ =~= SharedView::idle(quantum, mailbox, max_flows));
        s
    }

    /// A flow is able to run.
    pub fn make_ready(&mut self, lane: Lane, flow: Box<Flow>)
        ensures
            final(self)@ == old(self)@.made_ready(lane, (*flow)@),
    {
        self.ready.push((lane, flow));
        assert(self@ =~= old(self)@.made_ready(lane, (*flow)@));
    }

    /// The flows that became able to run, in order, for the run queues.
    pub fn take_ready(&mut self) -> (r: Vec<(Lane, Box<Flow>)>)
        ensures
            ready_view(r@) == old(self)@.ready,
            final(self)@ == (SharedView { ready: Seq::empty(), ..old(self)@ }),
    {
        let mut out: Vec<(Lane, Box<Flow>)> = Vec::new();
        std::mem::swap(&mut out, &mut self.ready);
        assert(self@ =~= SharedView { ready: Seq::empty(), ..old(self)@ });
        out
    }

    /// The ends that joiners and supervisors are to be told of, in order.
    pub fn take_endings(&mut self) -> (r: Vec<Ending>)
        ensures
            endings_view(r@) == old(self)@.endings,
            final(self)@ == (SharedView { endings: Seq::empty(), ..old(self)@ }),
    {
        let mut out: Vec<Ending> = Vec::new();
        std::mem::swap(&mut out, &mut self.endings);
        assert(self@ =~= SharedView { endings: Seq::empty(), ..old(self)@ });
        out
    }
}

} // verus!
