//! Errors of the scheduler.

use vstd::prelude::*;

use super::process::FlowId;
use crate::text::{dec, push_dec};
use crate::vm::fault::{Fault, FaultView};

verus! {

/// A failure of the infrastructure, not of a flow.
#[derive(Clone, Debug, PartialEq, Eq)]
pub enum RuntimeError {
    /// Another thread panicked while it held this lock.
    PoisonedLock(&'static str),
    /// The flow was dropped before it had an outcome.
    Abandoned(&'static str),
    /// The outcome was handed out before.
    AlreadyCollected(&'static str),
}

impl RuntimeError {
    pub open spec fn spec_text(self) -> Seq<char> {
        match self {
            RuntimeError::PoisonedLock(place) => "runtime mutex poisoned at "@ + place@,
            RuntimeError::Abandoned(place) => "abandoned before an outcome at "@ + place@,
            RuntimeError::AlreadyCollected(place) => "outcome already collected at "@ + place@,
        }
    }

    pub fn to_text(&self) -> (s: String)
        ensures
            s@ == self.spec_text(),
    {
        match self {
            RuntimeError::PoisonedLock(place) => {
                let mut s = String::from_str("runtime mutex poisoned at ");
                s.append(*place);
                s
            },
            RuntimeError::Abandoned(place) => {
                let mut s = String::from_str("abandoned before an outcome at ");
                s.append(*place);
                s
            },
            RuntimeError::AlreadyCollected(place) => {
                let mut s = String::from_str("outcome already collected at ");
                s.append(*place);
                s
            },
        }
    }
}

/// Counts infrastructure faults.
#[derive(Debug)]
pub struct FaultLog {
    faults: u64,
}

impl FaultLog {
    pub closed spec fn count(&self) -> u64 {
        self.faults
    }

    pub fn new() -> (l: FaultLog)
        ensures
            l.count() == 0,
    {
        FaultLog { faults: 0 }
    }
}

/// Count a fault and give the line to report it with.
pub fn report_fault(log: &mut FaultLog, err: &RuntimeError) -> (line: String)
    ensures
        final(log).count() == old(log).count().wrapping_add(1),
        line@ == "byteflow: "@ + err.spec_text() + " \u{2014} fail-closed"@,
{
    log.faults = log.faults.wrapping_add(1);
    let mut line = String::from_str("byteflow: ");
    line.append(err.to_text().as_str());
    line.append(" \u{2014} fail-closed");
    line
}

/// How many faults were reported.
pub fn fault_count(log: &FaultLog) -> (n: u64)
    ensures
        n == log.count(),
{
    log.faults
}

/// Why a module or a flow could not be started.
#[derive(Clone, Debug, PartialEq, Eq)]
pub enum SpawnError {
    BadFunction { index: u32, table_size: u32 },
    VerifyFailed(String),
    ThreadSpawnFailed(String),
    VmInit(String),
    /// As many flows are alive as may be.
    FlowLimit { current: usize, max: u32 },
}

/// A [`SpawnError`] as a mathematical value.
pub enum SpawnErrorView {
    BadFunction { index: u32, table_size: u32 },
    VerifyFailed(Seq<char>),
    ThreadSpawnFailed(Seq<char>),
    VmInit(Seq<char>),
    FlowLimit { current: usize, max: u32 },
}

impl View for SpawnError {
    type V = SpawnErrorView;

    open spec fn view(&self) -> SpawnErrorView {
        match *self {
            SpawnError::BadFunction { index, table_size } => SpawnErrorView::BadFunction {
                index,
                table_size,
            },
            SpawnError::VerifyFailed(s) => SpawnErrorView::VerifyFailed(s@),
            SpawnError::ThreadSpawnFailed(s) => SpawnErrorView::ThreadSpawnFailed(s@),
            SpawnError::VmInit(s) => SpawnErrorView::VmInit(s@),
            SpawnError::FlowLimit { current, max } => SpawnErrorView::FlowLimit { current, max },
        }
    }
}

impl SpawnErrorView {
    pub open spec fn spec_text(self) -> Seq<char> {
        match self {
            SpawnErrorView::BadFunction { index, table_size } => "spawn: function index "@ + dec(
                index as nat,
            ) + " out of range (table size "@ + dec(table_size as nat) + ")"@,
            SpawnErrorView::VerifyFailed(s) => "chunk verification failed: "@ + s,
            SpawnErrorView::ThreadSpawnFailed(s) => "failed to spawn runtime thread: "@ + s,
            SpawnErrorView::VmInit(s) => "vm init failed: "@ + s,
            SpawnErrorView::FlowLimit { current, max } => "spawn: flow limit reached ("@ + dec(
                current as nat,
            ) + " of "@ + dec(max as nat) + ")"@,
        }
    }

    /// The error that a fault of a new VM becomes.
    pub open spec fn from_fault(f: FaultView) -> SpawnErrorView {
        match f {
            FaultView::Plain(Fault::BadFunction { index, table_size }) =>
                SpawnErrorView::BadFunction { index, table_size },
            other => SpawnErrorView::VmInit(other.spec_text()),
        }
    }
}

impl SpawnError {
    pub fn to_text(&self) -> (s: String)
        ensures
            s@ == self@.spec_text(),
    {
        match self {
            SpawnError::BadFunction { index, table_size } => {
                let mut s = String::from_str("spawn: function index ");
                push_dec(&mut s, *index as u64);
                s.append(" out of range (table size ");
                push_dec(&mut s, *table_size as u64);
                s.append(")");
                s
            },
            SpawnError::VerifyFailed(msg) => {
                let mut s = String::from_str("chunk verification failed: ");
                s.append(msg.as_str());
                s
            },
            SpawnError::ThreadSpawnFailed(msg) => {
                let mut s = String::from_str("failed to spawn runtime thread: ");
                s.append(msg.as_str());
                s
            },
            SpawnError::VmInit(msg) => {
                let mut s = String::from_str("vm init failed: ");
                s.append(msg.as_str());
                s
            },
            SpawnError::FlowLimit { current, max } => {
                let mut s = String::from_str("spawn: flow limit reached (");
                push_dec(&mut s, *current as u64);
                s.append(" of ");
                push_dec(&mut s, *max as u64);
                s.append(")");
                s
            },
        }
    }
}

impl From<Fault> for SpawnError {
    fn from(fault: Fault) -> (e: SpawnError)
        ensures
            e@ == SpawnErrorView::from_fault(fault@),
    {
        match fault {
            Fault::BadFunction { index, table_size } => SpawnError::BadFunction {
                index,
                table_size,
            },
            other => SpawnError::VmInit(other.to_text()),
        }
    }
}

impl vstd::std_specs::convert::FromSpecImpl<Fault> for SpawnError {
    open spec fn obeys_from_spec() -> bool {
        false
    }

    open spec fn from_spec(fault: Fault) -> SpawnError {
        SpawnError::BadFunction { index: 0, table_size: 0 }
    }
}

/// Why a relation between flows could not be changed.
#[derive(Clone, Copy, Debug, PartialEq, Eq, Structural)]
pub enum LifecycleError {
    NoSuchFlow(FlowId),
    /// A flow cannot monitor or link itself.
    SelfRelation,
    /// The capability is unknown or revoked.
    InvalidCapability,
    /// The monitor or link does not exist, or belongs to another flow.
    NoSuchRelation,
    /// The name is bound already.
    NameTaken,
    /// The infrastructure failed.
    Unavailable,
}

impl LifecycleError {
    pub open spec fn spec_text(self) -> Seq<char> {
        match self {
            LifecycleError::NoSuchFlow(id) => "no live flow "@ + id.spec_text(),
            LifecycleError::SelfRelation => "a flow cannot relate to itself"@,
            LifecycleError::InvalidCapability => "unknown or revoked capability"@,
            LifecycleError::NoSuchRelation => "no such monitor or link"@,
            LifecycleError::NameTaken => "name already registered"@,
            LifecycleError::Unavailable => "runtime unavailable"@,
        }
    }

    pub fn to_text(&self) -> (s: String)
        ensures
            s@ == self.spec_text(),
    {
        match self {
            LifecycleError::NoSuchFlow(id) => {
                let mut s = String::from_str("no live flow ");
                s.append(id.to_text().as_str());
                s
            },
            LifecycleError::SelfRelation => String::from_str("a flow cannot relate to itself"),
            LifecycleError::InvalidCapability => String::from_str("unknown or revoked capability"),
            LifecycleError::NoSuchRelation => String::from_str("no such monitor or link"),
            LifecycleError::NameTaken => String::from_str("name already registered"),
            LifecycleError::Unavailable => String::from_str("runtime unavailable"),
        }
    }
}

/// An index that names no function stays the error that it is; any other fault of
/// a new machine is reported with its text.
pub proof fn faults_keep_their_meaning(f: FaultView)
    ensures
        f matches FaultView::Plain(Fault::BadFunction { index: i, table_size: n })
            ==> SpawnErrorView::from_fault(f) == (SpawnErrorView::BadFunction {
            index: i,
            table_size: n,
        }),
        !(f matches FaultView::Plain(Fault::BadFunction { .. })) ==> SpawnErrorView::from_fault(f)
            == SpawnErrorView::VmInit(f.spec_text()),
{
}

} // verus!
