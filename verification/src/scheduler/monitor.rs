//! One-way watches: the owner hears of the target's end.

use vstd::prelude::*;

use super::error::LifecycleError;
use super::process::{FlowId, IdSource};
use crate::seqs::{filter_ends, filter_step};

verus! {

/// Why a flow ended.
#[derive(Clone, Copy, Debug, PartialEq, Eq, Structural)]
pub enum FlowExitReason {
    Normal,
    Fault,
    Killed,
    /// A linked flow ended abnormally.
    Link,
}

impl FlowExitReason {
    /// The number that stands for the reason in messages.
    pub open spec fn code(self) -> u64 {
        match self {
            FlowExitReason::Normal => 0,
            FlowExitReason::Fault => 1,
            FlowExitReason::Killed => 2,
            FlowExitReason::Link => 3,
        }
    }

    pub fn as_u64(self) -> (n: u64)
        ensures
            n == self.code(),
    {
        match self {
            FlowExitReason::Normal => 0,
            FlowExitReason::Fault => 1,
            FlowExitReason::Killed => 2,
            FlowExitReason::Link => 3,
        }
    }

    /// Whether the end spreads along links.
    pub open spec fn abnormal(self) -> bool {
        !(self is Normal)
    }

    pub fn is_abnormal(self) -> (r: bool)
        ensures
            r == self.abnormal(),
    {
        match self {
            FlowExitReason::Normal => false,
            _ => true,
        }
    }

    pub open spec fn spec_text(self) -> &'static str {
        match self {
            FlowExitReason::Normal => "normal",
            FlowExitReason::Fault => "fault",
            FlowExitReason::Killed => "killed",
            FlowExitReason::Link => "link",
        }
    }

    pub fn to_text(&self) -> (s: &'static str)
        ensures
            s == self.spec_text(),
    {
        match self {
            FlowExitReason::Normal => "normal",
            FlowExitReason::Fault => "fault",
            FlowExitReason::Killed => "killed",
            FlowExitReason::Link => "link",
        }
    }
}

/// Reference of a monitor.
#[derive(Clone, Copy, Debug, PartialEq, Eq, Structural)]
pub struct MonitorRef(pub u64);

impl MonitorRef {
    pub fn as_u64(self) -> (raw: u64)
        ensures
            raw == self.0,
    {
        self.0
    }

    pub fn from_u64(raw: u64) -> (m: MonitorRef)
        ensures
            m.0 == raw,
    {
        MonitorRef(raw)
    }
}

/// One watch.
#[derive(Clone, Copy, Debug, PartialEq, Eq, Structural)]
pub struct MonitorEntry {
    pub monitor: MonitorRef,
    pub owner: FlowId,
    pub target: FlowId,
}

/// The notice that a watched flow is gone.
#[derive(Clone, Copy, Debug, PartialEq, Eq, Structural)]
pub struct DownEvent {
    pub monitor: MonitorRef,
    pub owner: FlowId,
    pub target: FlowId,
    pub reason: FlowExitReason,
}

/// The watches as a mathematical value.
#[verifier::ext_equal]
pub struct MonitorsView {
    /// In the order in which they were created.
    pub entries: Seq<MonitorEntry>,
    pub next: u64,
}

impl MonitorsView {
    pub open spec fn created(self, owner: FlowId, target: FlowId) -> MonitorsView {
        MonitorsView {
            entries: self.entries.push(
                MonitorEntry { monitor: MonitorRef(self.next), owner, target },
            ),
            next: self.next.wrapping_add(1),
        }
    }

    /// Whether `owner` has this watch.
    pub open spec fn owns(self, owner: FlowId, monitor: MonitorRef) -> bool {
        exists|i: int|
            0 <= i < self.entries.len() && (#[trigger] self.entries[i]).monitor == monitor
                && self.entries[i].owner == owner
    }

    /// Without the watch `monitor` of `owner`.
    pub open spec fn dropped(self, owner: FlowId, monitor: MonitorRef) -> MonitorsView {
        MonitorsView {
            entries: self.entries.filter(
                |e: MonitorEntry| !(e.monitor == monitor && e.owner == owner),
            ),
            ..self
        }
    }

    pub open spec fn without_owner(self, owner: FlowId) -> MonitorsView {
        MonitorsView { entries: self.entries.filter(|e: MonitorEntry| e.owner != owner), ..self }
    }

    pub open spec fn without_target(self, target: FlowId) -> MonitorsView {
        MonitorsView { entries: self.entries.filter(|e: MonitorEntry| e.target != target), ..self }
    }

    /// The notices for the end of `target`, oldest watch first.
    pub open spec fn downs(self, target: FlowId, reason: FlowExitReason) -> Seq<DownEvent> {
        self.entries.filter(|e: MonitorEntry| e.target == target).map_values(
            |e: MonitorEntry|
                DownEvent { monitor: e.monitor, owner: e.owner, target: e.target, reason },
        )
    }
}

/// All watches of a runtime.
#[derive(Debug)]
pub struct MonitorStore {
    entries: Vec<MonitorEntry>,
    ids: IdSource,
}

impl View for MonitorStore {
    type V = MonitorsView;

    closed spec fn view(&self) -> MonitorsView {
        MonitorsView { entries: self.entries@, next: self.ids.peek() }
    }
}

impl MonitorStore {
    pub fn new() -> (s: MonitorStore)
        ensures
            s@ == (MonitorsView { entries: Seq::empty(), next: 1 }),
    {
        MonitorStore { entries: Vec::new(), ids: IdSource::new() }
    }

    pub fn create(&mut self, owner: FlowId, target: FlowId) -> (m: MonitorRef)
        ensures
            m.0 == old(self)@.next,
            final(self)@ == old(self)@.created(owner, target),
    {
        let monitor = MonitorRef(self.ids.fresh());
        self.entries.push(MonitorEntry { monitor, owner, target });
        monitor
    }

    /// Drop a watch. Only its owner can.
    pub fn remove_owned(&mut self, owner: FlowId, monitor: MonitorRef) -> (r: Result<
        (),
        LifecycleError,
    >)
        ensures
            final(self)@ == old(self)@.dropped(owner, monitor),
            r == (if old(self)@.owns(owner, monitor) {
                Ok::<(), LifecycleError>(())
            } else {
                Err::<(), LifecycleError>(LifecycleError::NoSuchRelation)
            }),
    {
        let mut kept: Vec<MonitorEntry> = Vec::new();
        let mut found = false;
        let mut i: usize = 0;
        let ghost pred = |e: MonitorEntry| !(e.monitor == monitor && e.owner == owner);
        proof {
            filter_ends(self.entries@, pred);
        }
        while i < self.entries.len()
            invariant
                i <= self.entries@.len(),
                pred == (|e: MonitorEntry| !(e.monitor == monitor && e.owner == owner)),
                kept@ == self.entries@.take(i as int).filter(pred),
                found <==> exists|j: int|
                    0 <= j < i && (#[trigger] self.entries@[j]).monitor == monitor
                        && self.entries@[j].owner == owner,
            decreases self.entries@.len() - i,
        {
            let e = self.entries[i];
            proof {
                filter_step(self.entries@, pred, i as int);
            }
            if e.monitor.0 == monitor.0 && e.owner.0 == owner.0 {
                found = true;
            } else {
                kept.push(e);
            }
            i = i + 1;
        }
        proof {
            filter_ends(self.entries@, pred);
            assert(self@.entries == self.entries@);
            assert(found <==> self@.owns(owner, monitor));
        }
        self.entries = kept;
        if found {
            Ok(())
        } else {
            Err(LifecycleError::NoSuchRelation)
        }
    }

    /// Drop all watches of a flow.
    pub fn remove_owned_by(&mut self, owner: FlowId)
        ensures
            final(self)@ == old(self)@.without_owner(owner),
    {
        let mut kept: Vec<MonitorEntry> = Vec::new();
        let mut i: usize = 0;
        let ghost pred = |e: MonitorEntry| e.owner != owner;
        proof {
            filter_ends(self.entries@, pred);
        }
        while i < self.entries.len()
            invariant
                i <= self.entries@.len(),
                pred == (|e: MonitorEntry| e.owner != owner),
                kept@ == self.entries@.take(i as int).filter(pred),
            decreases self.entries@.len() - i,
        {
            let e = self.entries[i];
            proof {
                filter_step(self.entries@, pred, i as int);
            }
            if e.owner.0 != owner.0 {
                kept.push(e);
            }
            i = i + 1;
        }
        proof {
            filter_ends(self.entries@, pred);
        }
        self.entries = kept;
    }

    /// Drop all watches on a flow that ended, and give the notices for them.
    pub fn notify_target_exit(&mut self, target: FlowId, reason: FlowExitReason) -> (r: Vec<
        DownEvent,
    >)
        ensures
            r@ == old(self)@.downs(target, reason),
            final(self)@ == old(self)@.without_target(target),
    {
        let mut kept: Vec<MonitorEntry> = Vec::new();
        let mut events: Vec<DownEvent> = Vec::new();
        let mut i: usize = 0;
        let ghost keep = |e: MonitorEntry| e.target != target;
        let ghost hit = |e: MonitorEntry| e.target == target;
        let ghost event = |e: MonitorEntry|
            DownEvent { monitor: e.monitor, owner: e.owner, target: e.target, reason };
        proof {
            filter_ends(self.entries@, keep);
            filter_ends(self.entries@, hit);
        }
        while i < self.entries.len()
            invariant
                i <= self.entries@.len(),
                keep == (|e: MonitorEntry| e.target != target),
                hit == (|e: MonitorEntry| e.target == target),
                event == (|e: MonitorEntry|
                    DownEvent { monitor: e.monitor, owner: e.owner, target: e.target, reason }),
                kept@ == self.entries@.take(i as int).filter(keep),
                events@ =~= self.entries@.take(i as int).filter(hit).map_values(event),
            decreases self.entries@.len() - i,
        {
            let e = self.entries[i];
            proof {
                filter_step(self.entries@, keep, i as int);
                filter_step(self.entries@, hit, i as int);
            }
            if e.target.0 == target.0 {
                events.push(
                    DownEvent { monitor: e.monitor, owner: e.owner, target: e.target, reason },
                );
            } else {
                kept.push(e);
            }
            i = i + 1;
        }
        proof {
            filter_ends(self.entries@, keep);
            filter_ends(self.entries@, hit);
        }
        self.entries = kept;
        events
    }
}

} // verus!
