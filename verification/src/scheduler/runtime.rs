//! The runtime as the host sees it.

use std::sync::Arc;

use vstd::prelude::*;

use super::capability::{CapId, CapRights};
use super::error::{LifecycleError, SpawnError, SpawnErrorView};
use super::handle::FlowHandle;
use super::link::LinkId;
use super::mailbox::policy::{MailboxConfig, OverflowPolicy};
use super::mailbox::queue::MailboxFullReason;
use super::mailbox::{Delivery, DeliveryView};
use super::metrics::RuntimeMetricsSnapshot;
use super::model::{fired, kill_requested, spawned, spawned_ids, Lane, SharedView};
use super::monitor::{FlowExitReason, MonitorRef};
use super::process::{FlowId, Ids, RestartPolicy};
use super::queues::pool_size;
use super::registry::{name_cap, name_index, NameView};
use super::requests::{
    admin_killed, cap_made, killed, link_dropped, link_made, name_bound, name_unbound,
    timer_turned, watch_dropped, watch_made,
};
use super::shared::Shared;
use super::supervisor::{Supervisor, SupervisorConfig, SupervisorView};
use super::timer::{TimerStep, TimerView};
use crate::bytecode::chunk::Chunk;
use crate::bytecode::value::Value;
use crate::bytecode::verify::{refused_for, verified, verify, VerifyError};
use crate::jit::HOT_THRESHOLD;
use crate::natives::{std_native_table, std_slots};
use crate::vm::native::{gate_allows, str_eq, NativeFn, NativeGate, NativeTable};

verus! {

/// Instructions that a flow runs before another flow gets the worker.
pub const DEFAULT_QUANTUM: u32 = 10_000;

/// How long the timer sleeps when nothing is scheduled, in milliseconds.
pub const TIMER_IDLE_MS: u64 = 250;

/// When traces are compiled.
#[derive(Clone, Copy, Debug, PartialEq, Eq, Structural)]
pub struct JitConfig {
    pub enabled: bool,
    /// How often a place must run before it is compiled.
    pub hot_threshold: u32,
}

impl Default for JitConfig {
    fn default() -> (c: JitConfig)
        ensures
            c == (JitConfig { enabled: false, hot_threshold: HOT_THRESHOLD }),
    {
        JitConfig { enabled: false, hot_threshold: HOT_THRESHOLD }
    }
}

/// Settings of a runtime.
#[derive(Clone, Copy, Debug, PartialEq, Eq, Structural)]
pub struct RuntimeConfig {
    /// Number of worker threads.
    pub workers: usize,
    /// Instructions per turn of a flow.
    pub quantum: u32,
    /// Bounds of every flow's mailbox.
    pub mailbox: MailboxConfig,
    /// Most flows that may be alive at once; 0 for no limit.
    pub max_flows: u32,
    pub jit: JitConfig,
}

/// The defaults. The number of workers depends on the machine.
pub open spec fn default_settings(c: RuntimeConfig) -> bool {
    &&& c.workers >= 1
    &&& c.quantum == DEFAULT_QUANTUM
    &&& c.mailbox.spec_capacity().hops() == 256
    &&& c.mailbox.spec_bytes().budget() == 0x40_0000
    &&& c.mailbox.spec_overflow() == OverflowPolicy::Reject
    &&& c.max_flows == 0
    &&& c.jit == (JitConfig { enabled: false, hot_threshold: HOT_THRESHOLD })
}

impl RuntimeConfig {
    /// The defaults on a machine with this many processors: a worker for each
    /// of them, and one if there is none.
    pub fn for_cpus(cpus: usize) -> (c: RuntimeConfig)
        ensures
            c.workers == pool_size(cpus),
            default_settings(c),
    {
        RuntimeConfig {
            workers: if cpus == 0 {
                1
            } else {
                cpus
            },
            quantum: DEFAULT_QUANTUM,
            mailbox: MailboxConfig::default(),
            max_flows: 0,
            jit: JitConfig::default(),
        }
    }
}

/// `num_cpus::get`: the number of processors that the current thread can use.
/// It depends on the machine, so nothing is claimed of it.
#[verifier::external_body]
fn cpu_count() -> (n: usize) {
    num_cpus::get()
}

impl Default for RuntimeConfig {
    fn default() -> (c: RuntimeConfig)
        ensures
            default_settings(c),
    {
        RuntimeConfig::for_cpus(cpu_count())
    }
}

/// The flow with this number, for hosts that kept the number.
pub fn flow_id_from_u64(raw: u64) -> (id: FlowId)
    ensures
        id.0 == raw,
{
    FlowId(raw)
}

/// Why a message of the host was not delivered.
#[derive(Clone, Debug, PartialEq, Eq)]
pub enum SendError {
    NoSuchFlow(FlowId),
    /// Only messages can be sent.
    NotAHop { got: &'static str },
    MailboxFull { flow: FlowId, reason: MailboxFullReason },
}

impl SendError {
    pub open spec fn spec_text(self) -> Seq<char> {
        match self {
            SendError::NoSuchFlow(id) => "no live flow "@ + id.spec_text(),
            SendError::NotAHop { got } => "atomic hop requires Value::Message, got "@ + got@,
            SendError::MailboxFull { flow, reason } => "mailbox full for "@ + flow.spec_text()
                + " ("@ + reason.spec_text()@ + ")"@,
        }
    }

    pub fn to_text(&self) -> (s: String)
        ensures
            s@ == self.spec_text(),
    {
        match self {
            SendError::NoSuchFlow(id) => {
                let mut s = String::from_str("no live flow ");
                s.append(id.to_text().as_str());
                s
            },
            SendError::NotAHop { got } => {
                let mut s = String::from_str("atomic hop requires Value::Message, got ");
                s.append(*got);
                s
            },
            SendError::MailboxFull { flow, reason } => {
                let mut s = String::from_str("mailbox full for ");
                s.append(flow.to_text().as_str());
                s.append(" (");
                s.append(reason.to_text());
                s.append(")");
                s
            },
        }
    }
}

/// A message of the host: it is delivered as it is, whoever it names as its
/// sender. A flow that waited for it goes on.
pub open spec fn host_sent(s: SharedView, target: FlowId, message: Value) -> (
    SharedView,
    Result<(), SendError>,
) {
    if message.spec_as_message() is None {
        (s, Err(SendError::NotAHop { got: message.spec_type_label() }))
    } else {
        match s.mailbox_of(target) {
            None => (s, Err(SendError::NoSuchFlow(target))),
            Some(m) => match m.pushed(message) {
                (after, DeliveryView::Handoff(f)) => (
                    SharedView {
                        asks: s.asks.detached(f.id.0),
                        ..s.with_mailbox(target, after)
                    }.made_ready(
                        Lane::Global,
                        match f.last_receive_dest {
                            Some(dest) => f.resumed(dest, message),
                            None => f,
                        },
                    ),
                    Ok(()),
                ),
                (after, DeliveryView::Full(reason)) => (
                    s.with_mailbox(target, after),
                    Err(SendError::MailboxFull { flow: target, reason }),
                ),
                (after, _) => (s.with_mailbox(target, after), Ok(())),
            },
        }
    }
}

/// What the timer did.
#[derive(Clone, Copy, Debug, PartialEq, Eq, Structural)]
pub enum TimerTurn {
    Stop,
    /// Nothing was due; sleep for at most this many milliseconds.
    Sleep(u64),
    Fired,
}

impl Shared {
    /// One turn of the timer at `now`: stop, tell how long to sleep, or do
    /// what is due first.
    pub fn drive_timer(&mut self, now: u64) -> (turn: TimerTurn)
        ensures
            (final(self)@, turn) == timer_turned(old(self)@, now),
            match turn {
                TimerTurn::Stop => old(self)@.timer.shutdown && final(self)@ == old(self)@,
                TimerTurn::Sleep(ms) => {
                    &&& !old(self)@.timer.shutdown
                    &&& final(self)@ == old(self)@
                    &&& if old(self)@.timer.entries.len() == 0 {
                        ms == TIMER_IDLE_MS
                    } else {
                        ms > 0 && old(self)@.timer.entries[0].deadline == now + ms
                    }
                },
                TimerTurn::Fired => {
                    &&& !old(self)@.timer.shutdown
                    &&& old(self)@.timer.entries.len() > 0
                    &&& old(self)@.timer.entries[0].deadline <= now
                    &&& final(self)@ == fired(
                        SharedView {
                            timer: TimerView {
                                entries: old(self)@.timer.entries.skip(1),
                                ..old(self)@.timer
                            },
                            ..old(self)@
                        },
                        old(self)@.timer.entries[0],
                    )
                },
            },
    {
        match self.timer.poll(now) {
            TimerStep::Stop => TimerTurn::Stop,
            TimerStep::Idle => TimerTurn::Sleep(TIMER_IDLE_MS),
            TimerStep::Wait(ms) => TimerTurn::Sleep(ms),
            TimerStep::Fire(entry) => {
                assert(self@ =~= SharedView {
                    timer: TimerView {
                        entries: old(self)@.timer.entries.skip(1),
                        ..old(self)@.timer
                    },
                    ..old(self)@
                });
                self.fire(entry);
                TimerTurn::Fired
            },
        }
    }
}

/// A runtime: the state that its workers share, and the module that new flows
/// of the host run.
#[derive(Debug)]
pub struct Runtime {
    pub shared: Shared,
    pub chunk: Arc<Chunk>,
    pub natives: Arc<NativeTable>,
    pub workers: usize,
}

/// A runtime as a mathematical value.
#[verifier::ext_equal]
pub struct RuntimeView {
    pub shared: SharedView,
    pub chunk: Chunk,
    pub natives: Seq<Option<(Seq<char>, NativeFn)>>,
    pub workers: usize,
}

impl View for Runtime {
    type V = RuntimeView;

    open spec fn view(&self) -> RuntimeView {
        RuntimeView {
            shared: self.shared@,
            chunk: *self.chunk,
            natives: self.natives@,
            workers: self.workers,
        }
    }
}

impl RuntimeView {
    pub open spec fn with_shared(self, shared: SharedView) -> RuntimeView {
        RuntimeView { shared, ..self }
    }

    pub open spec fn alive(self, id: FlowId) -> bool {
        self.shared.alive(id)
    }
}

/// A runtime was made of a sound module, or the reason why not.
pub open spec fn launched(
    r: Result<Runtime, SpawnError>,
    chunk: Chunk,
    natives: Seq<Option<(Seq<char>, NativeFn)>>,
    config: RuntimeConfig,
) -> bool {
    if verified(chunk) {
        r matches Ok(rt) && rt@ == RuntimeView {
            shared: SharedView::idle(config.quantum, config.mailbox, config.max_flows),
            chunk,
            natives,
            workers: pool_size(config.workers),
        }
    } else {
        r matches Err(e) && exists|why: VerifyError|
            #[trigger] refused_for(chunk, why) && e@ == SpawnErrorView::VerifyFailed(
                why.spec_text(),
            )
    }
}

/// Position of the first function with this name, searching from `i`.
pub open spec fn function_named(chunk: Chunk, name: Seq<char>, i: nat) -> Option<u32>
    decreases chunk.functions@.len() - i,
{
    if i >= chunk.functions@.len() {
        None
    } else if chunk.functions@[i as int].name@ == name {
        Some(i as u32)
    } else {
        function_named(chunk, name, i + 1)
    }
}

pub open spec fn handle_result(r: Result<FlowHandle, SpawnError>) -> Result<FlowId, SpawnErrorView> {
    match r {
        Ok(h) => Ok(h.flow()),
        Err(e) => Err(e@),
    }
}

/// Which natives a flow of the host may call: all of the table.
pub open spec fn open_gate(natives: Seq<Option<(Seq<char>, NativeFn)>>) -> Seq<bool> {
    Seq::new(natives.len(), |i: int| true)
}

/// Why a flow cannot take part in a relation: it is not alive.
pub open spec fn absent(s: SharedView, id: FlowId) -> Option<LifecycleError> {
    if s.alive(id) {
        None
    } else {
        Some(LifecycleError::NoSuchFlow(id))
    }
}

/// Why two flows cannot be related: they are one, or one is not alive.
pub open spec fn unrelatable(s: SharedView, a: FlowId, b: FlowId) -> Option<LifecycleError> {
    if a == b {
        Some(LifecycleError::SelfRelation)
    } else if !s.alive(a) {
        Some(LifecycleError::NoSuchFlow(a))
    } else if !s.alive(b) {
        Some(LifecycleError::NoSuchFlow(b))
    } else {
        None
    }
}

impl Runtime {
    /// A runtime without native functions, with the default settings.
    pub fn new(chunk: Chunk) -> (r: Result<Runtime, SpawnError>)
        ensures
            exists|config: RuntimeConfig|
                #[trigger] launched(r, chunk, Seq::empty(), config) && default_settings(
                    config,
                ),
    {
        Runtime::with_config(chunk, RuntimeConfig::default())
    }

    /// A runtime with native functions and the default settings.
    pub fn with_natives(chunk: Chunk, natives: Arc<NativeTable>) -> (r: Result<Runtime, SpawnError>)
        ensures
            exists|config: RuntimeConfig|
                #[trigger] launched(r, chunk, natives@, config) && default_settings(
                    config,
                ),
    {
        Runtime::with_natives_and_config(chunk, natives, RuntimeConfig::default())
    }

    /// A runtime without native functions.
    pub fn with_config(chunk: Chunk, config: RuntimeConfig) -> (r: Result<Runtime, SpawnError>)
        ensures
            launched(r, chunk, Seq::empty(), config),
    {
        let natives = NativeTable::empty();
        assert(natives@ =~= Seq::empty());
        Runtime::with_natives_and_config(chunk, natives, config)
    }

    /// A runtime for a module, which is checked first.
    pub fn with_natives_and_config(
        chunk: Chunk,
        natives: Arc<NativeTable>,
        config: RuntimeConfig,
    ) -> (r: Result<Runtime, SpawnError>)
        ensures
            launched(r, chunk, natives@, config),
    {
        match verify(&chunk) {
            Ok(()) => {},
            Err(e) => return Err(SpawnError::VerifyFailed(e.to_text())),
        }
        let workers: usize = if config.workers == 0 {
            1
        } else {
            config.workers
        };
        Ok(
            Runtime {
                shared: Shared::new(config.quantum, config.mailbox, config.max_flows),
                chunk: Arc::new(chunk),
                natives,
                workers,
            },
        )
    }

    /// A runtime with the standard native functions.
    pub fn with_std_natives_and_config(chunk: Chunk, config: RuntimeConfig) -> (r: Result<
        Runtime,
        SpawnError,
    >)
        ensures
            launched(r, chunk, std_slots(), config),
    {
        Runtime::with_natives_and_config(chunk, std_native_table(), config)
    }

    /// Start a flow.
    pub fn spawn(&mut self, ids: &mut Ids, function: u32, args: &[Value]) -> (r: Result<
        FlowHandle,
        SpawnError,
    >)
        ensures
            ({
                let (shared, outcome) = spawned(
                    old(self)@.shared,
                    old(ids)@,
                    old(self)@.chunk,
                    old(self)@.natives,
                    open_gate(old(self)@.natives),
                    function,
                    args@,
                    RestartPolicy::Never,
                    None,
                );
                &&& final(self)@ == old(self)@.with_shared(shared)
                &&& handle_result(r) == outcome
                &&& final(ids)@ == spawned_ids(old(self)@.shared, old(ids)@)
            }),
    {
        let spawner = self.spawner();
        spawner.spawn(&mut self.shared, ids, function, args, RestartPolicy::Never)
    }

    /// What it takes to start flows of this runtime.
    pub fn spawner(&self) -> (s: RuntimeSpawner)
        ensures
            *s.chunk == self@.chunk,
            s.natives@ == self@.natives,
    {
        RuntimeSpawner { chunk: self.chunk.clone(), natives: self.natives.clone() }
    }

    /// A supervisor for children of this runtime.
    pub fn supervisor(&self) -> (s: Supervisor)
        ensures
            s@ == (SupervisorView {
                config: SupervisorConfig { max_restarts: 3, max_period: 5000 },
                children: Map::empty(),
                restart_times: Seq::empty(),
                intensity_exceeded: false,
                stopped: false,
            }),
    {
        Supervisor::new()
    }

    /// The first function with this name.
    pub fn function_index(&self, name: &str) -> (r: Option<u32>)
        ensures
            r == function_named(self@.chunk, name@, 0),
    {
        let mut i: usize = 0;
        while i < self.chunk.functions.len()
            invariant
                i <= self.chunk.functions@.len(),
                function_named(self@.chunk, name@, 0) == function_named(
                    self@.chunk,
                    name@,
                    i as nat,
                ),
            decreases self.chunk.functions@.len() - i,
        {
            if str_eq(self.chunk.functions[i].name.as_str(), name) {
                return Some(i as u32);
            }
            i = i + 1;
        }
        None
    }

    pub fn metrics(&self) -> (m: RuntimeMetricsSnapshot)
        ensures
            m == (RuntimeMetricsSnapshot {
                processes_spawned: self@.shared.metrics.processes_spawned,
                processes_completed: self@.shared.metrics.processes_completed,
                processes_failed: self@.shared.metrics.processes_failed,
                messages_sent: self@.shared.metrics.messages_sent,
                steals: self@.shared.metrics.steals,
                reschedules: self@.shared.metrics.reschedules,
            }),
    {
        self.shared.metrics.snapshot()
    }

    /// Number of flows that are alive: running, able to run, asleep or
    /// waiting.
    pub fn live_flows(&self) -> (n: usize)
        ensures
            n == self@.shared.directory.dom().len(),
    {
        self.shared.directory.len()
    }

    pub fn worker_count(&self) -> (n: usize)
        ensures
            n == self@.workers,
    {
        self.workers
    }

    /// Deliver a message of the host, which is trusted: it names the flow, and
    /// the message is not stamped.
    pub fn send(&mut self, target: FlowId, message: Value) -> (r: Result<(), SendError>)
        ensures
            final(self)@ == old(self)@.with_shared(
                host_sent(old(self)@.shared, target, message).0,
            ),
            r == host_sent(old(self)@.shared, target, message).1,
    {
        let ghost s = self.shared@;
        if message.as_message().is_none() {
            return Err(SendError::NotAHop { got: message.type_label() });
        }
        let mut mailbox = match self.shared.directory.unregister(target) {
            Some(m) => m,
            None => {
                assert(self.shared@ =~= s);
                return Err(SendError::NoSuchFlow(target));
            },
        };
        let outcome = mailbox.push(message.clone());
        self.shared.directory.register(target, mailbox);
        assert(self.shared@ =~= s.with_mailbox(target, mailbox@));
        match outcome {
            Ok(Delivery::Handoff(f)) => {
                let mut flow = f;
                let _ = self.shared.ask_waits.remove_asker(flow.id);
                match flow.last_receive_dest {
                    Some(dest) => flow.resume(dest, message),
                    None => {},
                }
                self.shared.make_ready(Lane::Global, flow);
                assert(self.shared@ =~= host_sent(s, target, message).0);
                Ok(())
            },
            Ok(_) => Ok(()),
            Err(full) => Err(SendError::MailboxFull { flow: target, reason: full.reason() }),
        }
    }

    fn require_live(&self, id: FlowId) -> (r: Result<(), LifecycleError>)
        ensures
            r == (match absent(self@.shared, id) {
                Some(e) => Err::<(), _>(e),
                None => Ok(()),
            }),
    {
        if self.shared.directory.contains(id) {
            Ok(())
        } else {
            Err(LifecycleError::NoSuchFlow(id))
        }
    }

    /// A capability of the host for a live flow.
    pub fn mint_cap(&mut self, ids: &mut Ids, flow: FlowId) -> (r: Result<
        CapId,
        LifecycleError,
    >)
        ensures
            (final(self)@, final(ids)@, r) == ({
                let (shared, ids_after, result) = cap_made(old(self)@.shared, old(ids)@, flow, CapRights::send_ask());
                (old(self)@.with_shared(shared), ids_after, result)
            }),
            match absent(old(self)@.shared, flow) {
                Some(e) => {
                    &&& r == Err::<CapId, _>(e)
                    &&& final(self)@ == old(self)@
                    &&& final(ids)@ == old(ids)@
                },
                None => {
                    &&& r == Ok::<_, LifecycleError>(CapId(old(ids)@.cap))
                    &&& final(ids)@ == old(ids)@.cap_drawn()
                    &&& final(self)@ == old(self)@.with_shared(
                        SharedView {
                            caps: old(self)@.shared.caps.minted(
                                old(ids)@.cap,
                                flow,
                                CapRights::send_ask(),
                            ),
                            ..old(self)@.shared
                        },
                    )
                },
            },
    {
        self.require_live(flow)?;
        let cap = self.shared.caps.mint(&mut ids.caps, flow, CapRights::send_ask());
        assert(self@ =~= old(self)@.with_shared(
            SharedView {
                caps: old(self)@.shared.caps.minted(cap.0, flow, CapRights::send_ask()),
                ..old(self)@.shared
            },
        ));
        Ok(cap)
    }

    /// A capability of the host that lets its holder kill other flows.
    pub fn mint_admin_cap(&mut self, ids: &mut Ids, holder: FlowId) -> (r: Result<
        CapId,
        LifecycleError,
    >)
        ensures
            (final(self)@, final(ids)@, r) == ({
                let (shared, ids_after, result) = cap_made(old(self)@.shared, old(ids)@, holder, CapRights::admin());
                (old(self)@.with_shared(shared), ids_after, result)
            }),
            match absent(old(self)@.shared, holder) {
                Some(e) => {
                    &&& r == Err::<CapId, _>(e)
                    &&& final(self)@ == old(self)@
                    &&& final(ids)@ == old(ids)@
                },
                None => {
                    &&& r == Ok::<_, LifecycleError>(CapId(old(ids)@.cap))
                    &&& final(ids)@ == old(ids)@.cap_drawn()
                    &&& final(self)@ == old(self)@.with_shared(
                        SharedView {
                            caps: old(self)@.shared.caps.minted(
                                old(ids)@.cap,
                                holder,
                                CapRights::admin(),
                            ),
                            ..old(self)@.shared
                        },
                    )
                },
            },
    {
        self.require_live(holder)?;
        let cap = self.shared.caps.mint(&mut ids.caps, holder, CapRights::admin());
        assert(self@ =~= old(self)@.with_shared(
            SharedView {
                caps: old(self)@.shared.caps.minted(cap.0, holder, CapRights::admin()),
                ..old(self)@.shared
            },
        ));
        Ok(cap)
    }

    /// Kill a flow on behalf of `holder`, whose capability must be one that
    /// [`Self::mint_admin_cap`] made for it.
    pub fn admin_kill(&mut self, holder: FlowId, cap: CapId, victim: FlowId) -> (r: Result<
        (),
        LifecycleError,
    >)
        ensures
            (final(self)@, r) == ({
                let (shared, result) = admin_killed(old(self)@.shared, holder, cap, victim);
                (old(self)@.with_shared(shared), result)
            }),
            ({
                let s = old(self)@.shared;
                let permitted = s.caps.resolved(cap.0) matches Some(e) && e.flow == holder
                    && e.rights.includes(CapRights::admin());
                if !permitted {
                    r == Err::<(), _>(LifecycleError::InvalidCapability) && final(self)@ == old(
                        self,
                    )@
                } else if !s.alive(victim) {
                    r == Err::<(), _>(LifecycleError::NoSuchFlow(victim)) && final(self)@ == old(
                        self,
                    )@
                } else {
                    r == Ok::<_, LifecycleError>(()) && final(self)@ == old(self)@.with_shared(
                        kill_requested(s, victim, FlowExitReason::Killed),
                    )
                }
            }),
    {
        match self.shared.caps.resolve(cap) {
            Some(e) => {
                if e.flow.0 != holder.0 || !e.rights.contains(CapRights::admin()) {
                    return Err(LifecycleError::InvalidCapability);
                }
            },
            None => return Err(LifecycleError::InvalidCapability),
        }
        self.kill(victim)
    }

    /// Have `owner` told when `target` ends.
    pub fn monitor(&mut self, owner: FlowId, target: FlowId) -> (r: Result<
        MonitorRef,
        LifecycleError,
    >)
        ensures
            (final(self)@, r) == ({
                let (shared, result) = watch_made(old(self)@.shared, owner, target);
                (old(self)@.with_shared(shared), result)
            }),
            match unrelatable(old(self)@.shared, owner, target) {
                Some(e) => r == Err::<MonitorRef, _>(e) && final(self)@ == old(self)@,
                None => r == Ok::<_, LifecycleError>(MonitorRef(old(self)@.shared.monitors.next))
                    && final(self)@ == old(self)@.with_shared(
                    SharedView {
                        monitors: old(self)@.shared.monitors.created(owner, target),
                        ..old(self)@.shared
                    },
                ),
            },
    {
        if owner.0 == target.0 {
            return Err(LifecycleError::SelfRelation);
        }
        self.require_live(owner)?;
        self.require_live(target)?;
        let m = self.shared.monitors.create(owner, target);
        assert(self@ =~= old(self)@.with_shared(
            SharedView {
                monitors: old(self)@.shared.monitors.created(owner, target),
                ..old(self)@.shared
            },
        ));
        Ok(m)
    }

    /// Drop a monitor of `owner`.
    pub fn demonitor(&mut self, owner: FlowId, monitor: MonitorRef) -> (r: Result<(), LifecycleError>)
        ensures
            (final(self)@, r) == ({
                let (shared, result) = watch_dropped(old(self)@.shared, owner, monitor);
                (old(self)@.with_shared(shared), result)
            }),
            match absent(old(self)@.shared, owner) {
                Some(e) => r == Err::<(), _>(e) && final(self)@ == old(self)@,
                None => {
                    &&& r == (if old(self)@.shared.monitors.owns(owner, monitor) {
                        Ok::<(), _>(())
                    } else {
                        Err(LifecycleError::NoSuchRelation)
                    })
                    &&& final(self)@ == old(self)@.with_shared(
                        SharedView {
                            monitors: old(self)@.shared.monitors.dropped(owner, monitor),
                            ..old(self)@.shared
                        },
                    )
                },
            },
    {
        self.require_live(owner)?;
        let r = self.shared.monitors.remove_owned(owner, monitor);
        assert(self@ =~= old(self)@.with_shared(
            SharedView {
                monitors: old(self)@.shared.monitors.dropped(owner, monitor),
                ..old(self)@.shared
            },
        ));
        r
    }

    /// Link two flows: if one ends abnormally, so does the other.
    pub fn link(&mut self, a: FlowId, b: FlowId) -> (r: Result<LinkId, LifecycleError>)
        ensures
            (final(self)@, r) == ({
                let (shared, result) = link_made(old(self)@.shared, a, b);
                (old(self)@.with_shared(shared), result)
            }),
            match unrelatable(old(self)@.shared, a, b) {
                Some(e) => r == Err::<LinkId, _>(e) && final(self)@ == old(self)@,
                None => r == Ok::<_, LifecycleError>(LinkId(old(self)@.shared.links.next))
                    && final(self)@ == old(self)@.with_shared(
                    SharedView {
                        links: old(self)@.shared.links.linked(a, b),
                        ..old(self)@.shared
                    },
                ),
            },
    {
        if a.0 == b.0 {
            return Err(LifecycleError::SelfRelation);
        }
        self.require_live(a)?;
        self.require_live(b)?;
        let r = self.shared.links.link(a, b);
        assert(self@ =~= old(self)@.with_shared(
            SharedView { links: old(self)@.shared.links.linked(a, b), ..old(self)@.shared },
        ));
        r
    }

    /// Drop a link of `owner`.
    pub fn unlink(&mut self, owner: FlowId, link: LinkId) -> (r: Result<(), LifecycleError>)
        ensures
            (final(self)@, r) == ({
                let (shared, result) = link_dropped(old(self)@.shared, owner, link);
                (old(self)@.with_shared(shared), result)
            }),
            match absent(old(self)@.shared, owner) {
                Some(e) => r == Err::<(), _>(e) && final(self)@ == old(self)@,
                None => {
                    &&& r == (if old(self)@.shared.links.owns(owner, link) {
                        Ok::<(), _>(())
                    } else {
                        Err(LifecycleError::NoSuchRelation)
                    })
                    &&& final(self)@ == old(self)@.with_shared(
                        SharedView {
                            links: old(self)@.shared.links.dropped(owner, link),
                            ..old(self)@.shared
                        },
                    )
                },
            },
    {
        self.require_live(owner)?;
        let r = self.shared.links.unlink_owned(owner, link);
        assert(self@ =~= old(self)@.with_shared(
            SharedView { links: old(self)@.shared.links.dropped(owner, link), ..old(self)@.shared },
        ));
        r
    }

    /// Bind a name to a capability for a live flow. The name goes with the
    /// flow.
    pub fn register_name(&mut self, name: &str, cap: CapId) -> (r: Result<(), LifecycleError>)
        ensures
            (final(self)@, r) == ({
                let (shared, result) = name_bound(old(self)@.shared, name@, cap);
                (old(self)@.with_shared(shared), result)
            }),
            ({
                let s = old(self)@.shared;
                let refusal = match s.caps.resolved(cap.0) {
                    None => Some(LifecycleError::InvalidCapability),
                    Some(e) => if !s.alive(e.flow) {
                        Some(LifecycleError::NoSuchFlow(e.flow))
                    } else if name_cap(s.registry, name@) is Some {
                        Some(LifecycleError::NameTaken)
                    } else {
                        None
                    },
                };
                match refusal {
                    Some(e) => r == Err::<(), _>(e) && final(self)@ == old(self)@,
                    None => r == Ok::<_, LifecycleError>(()) && final(self)@
                        == old(self)@.with_shared(
                        SharedView {
                            registry: s.registry.push(
                                NameView {
                                    name: name@,
                                    cap,
                                    flow: s.caps.resolved(cap.0).unwrap().flow,
                                },
                            ),
                            ..s
                        },
                    ),
                }
            }),
    {
        let entry = match self.shared.caps.resolve(cap) {
            Some(e) => e,
            None => return Err(LifecycleError::InvalidCapability),
        };
        self.require_live(entry.flow)?;
        match self.shared.registry.register(name, cap, entry.flow) {
            Ok(()) => {
                assert(self@ =~= old(self)@.with_shared(
                    SharedView {
                        registry: old(self)@.shared.registry.push(
                            NameView { name: name@, cap, flow: entry.flow },
                        ),
                        ..old(self)@.shared
                    },
                ));
                Ok(())
            },
            Err(e) => Err(e),
        }
    }

    /// The capability that a name is bound to.
    pub fn whereis(&self, name: &str) -> (r: Result<Option<CapId>, LifecycleError>)
        ensures
            r == Ok::<_, LifecycleError>(name_cap(self@.shared.registry, name@)),
    {
        Ok(self.shared.registry.whereis(name))
    }

    /// Kill a flow: at once if it waits, else when it next gets a worker.
    pub fn kill(&mut self, id: FlowId) -> (r: Result<(), LifecycleError>)
        ensures
            (final(self)@, r) == ({
                let (shared, result) = killed(old(self)@.shared, id);
                (old(self)@.with_shared(shared), result)
            }),
            match absent(old(self)@.shared, id) {
                Some(e) => r == Err::<(), _>(e) && final(self)@ == old(self)@,
                None => r == Ok::<_, LifecycleError>(()) && final(self)@ == old(self)@.with_shared(
                    kill_requested(old(self)@.shared, id, FlowExitReason::Killed),
                ),
            },
    {
        self.require_live(id)?;
        self.shared.request_kill(id, FlowExitReason::Killed);
        Ok(())
    }

    /// Unbind a name; `false` if it was not bound.
    pub fn unregister_name(&mut self, name: &str) -> (r: Result<bool, LifecycleError>)
        ensures
            final(self)@ == old(self)@.with_shared(name_unbound(old(self)@.shared, name@).0),
            r == Ok::<_, LifecycleError>(name_unbound(old(self)@.shared, name@).1),
            r == Ok::<_, LifecycleError>(name_cap(old(self)@.shared.registry, name@) is Some),
            final(self)@ == (if name_cap(old(self)@.shared.registry, name@) is Some {
                old(self)@.with_shared(
                    SharedView {
                        registry: old(self)@.shared.registry.remove(
                            name_index(old(self)@.shared.registry, name@, 0) as int,
                        ),
                        ..old(self)@.shared
                    },
                )
            } else {
                old(self)@
            }),
    {
        Ok(self.shared.registry.unregister(name))
    }

    /// Use another module for the flows that the host starts from now on.
    /// Flows that run, and their children, keep the one they have.
    pub fn reload_chunk(&mut self, chunk: Chunk) -> (r: Result<(), SpawnError>)
        ensures
            if verified(chunk) {
                r is Ok && final(self)@ == (RuntimeView { chunk, ..old(self)@ })
            } else {
                &&& final(self)@ == old(self)@
                &&& r matches Err(e) && exists|why: VerifyError|
                    #[trigger] refused_for(chunk, why) && e@ == SpawnErrorView::VerifyFailed(
                        why.spec_text(),
                    )
            },
    {
        match verify(&chunk) {
            Ok(()) => {},
            Err(e) => return Err(SpawnError::VerifyFailed(e.to_text())),
        }
        self.chunk = Arc::new(chunk);
        Ok(())
    }

    /// Stop the timer.
    pub fn shutdown(&mut self)
        ensures
            final(self)@ == old(self)@.with_shared(
                SharedView {
                    timer: TimerView { shutdown: true, ..old(self)@.shared.timer },
                    ..old(self)@.shared
                },
            ),
    {
        self.shared.timer.shutdown();
    }
}

/// What it takes to start flows: the module and the native functions. It can
/// be handed to another thread.
#[derive(Debug)]
pub struct RuntimeSpawner {
    pub chunk: Arc<Chunk>,
    pub natives: Arc<NativeTable>,
}

impl RuntimeSpawner {
    fn start(
        &self,
        shared: &mut Shared,
        ids: &mut Ids,
        function: u32,
        args: &[Value],
        restart_policy: RestartPolicy,
        supervisor: Option<u64>,
    ) -> (r: Result<FlowHandle, SpawnError>)
        ensures
            (final(shared)@, handle_result(r)) == spawned(
                old(shared)@,
                old(ids)@,
                *self.chunk,
                self.natives@,
                open_gate(self.natives@),
                function,
                args@,
                restart_policy,
                supervisor,
            ),
            final(ids)@ == spawned_ids(old(shared)@, old(ids)@),
    {
        let gate = NativeGate::allow_all(self.natives.len());
        match shared.spawn_on(
            ids,
            &self.chunk,
            &self.natives,
            gate,
            function,
            args,
            restart_policy,
            supervisor,
        ) {
            Ok(id) => Ok(FlowHandle::new(id)),
            Err(e) => Err(e),
        }
    }

    /// Start a flow under a restart policy.
    pub fn spawn(
        &self,
        shared: &mut Shared,
        ids: &mut Ids,
        function: u32,
        args: &[Value],
        restart_policy: RestartPolicy,
    ) -> (r: Result<FlowHandle, SpawnError>)
        ensures
            (final(shared)@, handle_result(r)) == spawned(
                old(shared)@,
                old(ids)@,
                *self.chunk,
                self.natives@,
                open_gate(self.natives@),
                function,
                args@,
                restart_policy,
                None,
            ),
            final(ids)@ == spawned_ids(old(shared)@, old(ids)@),
    {
        self.start(shared, ids, function, args, restart_policy, None)
    }

    /// Start a flow whose end a supervisor hears of.
    pub fn spawn_linked(
        &self,
        shared: &mut Shared,
        ids: &mut Ids,
        function: u32,
        args: &[Value],
        restart_policy: RestartPolicy,
        supervisor: u64,
    ) -> (r: Result<FlowHandle, SpawnError>)
        ensures
            (final(shared)@, handle_result(r)) == spawned(
                old(shared)@,
                old(ids)@,
                *self.chunk,
                self.natives@,
                open_gate(self.natives@),
                function,
                args@,
                restart_policy,
                Some(supervisor),
            ),
            final(ids)@ == spawned_ids(old(shared)@, old(ids)@),
    {
        self.start(shared, ids, function, args, restart_policy, Some(supervisor))
    }

    pub fn metrics(&self, shared: &Shared) -> (m: RuntimeMetricsSnapshot)
        ensures
            m == (RuntimeMetricsSnapshot {
                processes_spawned: shared@.metrics.processes_spawned,
                processes_completed: shared@.metrics.processes_completed,
                processes_failed: shared@.metrics.processes_failed,
                messages_sent: shared@.metrics.messages_sent,
                steals: shared@.metrics.steals,
                reschedules: shared@.metrics.reschedules,
            }),
    {
        shared.metrics.snapshot()
    }

    /// Kill a flow.
    pub fn request_kill(&self, shared: &mut Shared, id: FlowId, reason: FlowExitReason)
        ensures
            final(shared)@ == kill_requested(old(shared)@, id, reason),
    {
        shared.request_kill(id, reason);
    }
}

/// A function is found by its name at the first place that bears it, and not at
/// all if none does.
pub proof fn first_function_is_found(chunk: Chunk, name: Seq<char>, k: int)
    requires
        chunk.functions@.len() <= u32::MAX,
        0 <= k < chunk.functions@.len(),
    ensures
        function_named(chunk, name, 0) is None ==> chunk.functions@[k].name@ != name,
        function_named(chunk, name, 0) matches Some(f) ==> f < chunk.functions@.len()
            && chunk.functions@[f as int].name@ == name && (chunk.functions@[k].name@ == name
            ==> f <= k),
{
    function_from(chunk, name, 0);
}

proof fn function_from(chunk: Chunk, name: Seq<char>, i: nat)
    requires
        chunk.functions@.len() <= u32::MAX,
        i <= chunk.functions@.len(),
    ensures
        function_named(chunk, name, i) is None ==> forall|j: int|
            i <= j < chunk.functions@.len() ==> (#[trigger] chunk.functions@[j]).name@ != name,
        function_named(chunk, name, i) matches Some(f) ==> i <= f < chunk.functions@.len()
            && chunk.functions@[f as int].name@ == name && forall|j: int|
            i <= j < f ==> (#[trigger] chunk.functions@[j]).name@ != name,
    decreases chunk.functions@.len() - i,
{
    if i < chunk.functions@.len() && chunk.functions@[i as int].name@ != name {
        function_from(chunk, name, i + 1);
    }
}

/// A module that passes the check is launched: nothing runs, nothing is owned by
/// anyone, nothing was counted, and no fewer than one worker is there. Any other
/// module is refused.
pub proof fn launch_starts_idle(
    r: Result<Runtime, SpawnError>,
    chunk: Chunk,
    natives: Seq<Option<(Seq<char>, NativeFn)>>,
    config: RuntimeConfig,
    key: u64,
)
    requires
        launched(r, chunk, natives, config),
    ensures
        r is Ok <==> verified(chunk),
        r matches Err(e) ==> e@ is VerifyFailed,
        r matches Ok(rt) ==> {
            &&& rt@.chunk == chunk
            &&& rt@.natives == natives
            &&& rt@.workers >= 1
            &&& config.workers >= 1 ==> rt@.workers == config.workers
            &&& config.workers == 0 ==> rt@.workers == 1
            &&& !rt@.shared.directory.dom().contains(key)
            &&& !rt@.shared.caps.entries.dom().contains(key)
            &&& !rt@.shared.kills.dom().contains(key)
            &&& !rt@.shared.waiting_send.dom().contains(key)
            &&& !rt@.shared.asks.by_asker.dom().contains(key)
            &&& !rt@.shared.asks.by_target.dom().contains(key)
            &&& rt@.shared.monitors.entries.len() == 0
            &&& rt@.shared.monitors.next == 1
            &&& rt@.shared.links.entries.len() == 0
            &&& rt@.shared.links.next == 1
            &&& rt@.shared.registry.len() == 0
            &&& rt@.shared.timer.entries.len() == 0
            &&& !rt@.shared.timer.shutdown
            &&& rt@.shared.ready.len() == 0
            &&& rt@.shared.endings.len() == 0
            &&& rt@.shared.quantum == config.quantum
            &&& rt@.shared.mailbox == config.mailbox
            &&& rt@.shared.max_flows == config.max_flows
        },
{
}

/// Two flows can be related if and only if they are two and both alive; the
/// error names the first that is not alive.
pub proof fn live_flows_can_be_related(s: SharedView, a: FlowId, b: FlowId)
    ensures
        s.alive(a) == s.directory.dom().contains(a.0),
        absent(s, a) is None <==> s.directory.dom().contains(a.0),
        absent(s, a) matches Some(e) ==> e == LifecycleError::NoSuchFlow(a),
        unrelatable(s, a, b) is None <==> a != b && s.directory.dom().contains(a.0)
            && s.directory.dom().contains(b.0),
        a == b ==> unrelatable(s, a, b) == Some(LifecycleError::SelfRelation),
        a != b && !s.directory.dom().contains(a.0) ==> unrelatable(s, a, b) == Some(
            LifecycleError::NoSuchFlow(a),
        ),
        a != b && s.directory.dom().contains(a.0) && !s.directory.dom().contains(b.0)
            ==> unrelatable(s, a, b) == Some(LifecycleError::NoSuchFlow(b)),
{
}

/// A flow of the host may call every slot of its table and no other.
pub proof fn hosted_flow_may_call_all(natives: Seq<Option<(Seq<char>, NativeFn)>>, slot: int)
    ensures
        gate_allows(open_gate(natives), slot) <==> 0 <= slot < natives.len(),
{
}

} // verus!
