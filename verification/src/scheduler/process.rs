//! Flows: the unit of concurrent work.

use vstd::prelude::*;

use crate::bytecode::value::Value;
use crate::text::{dec, push_dec};
use crate::vm::effects::lands;
use crate::vm::machine::Vm;
use crate::vm::semantics::{reg_write, VmView};

verus! {

/// Identity of a flow. Inside messages it appears as [`Value::Pid`]; it is
/// never an address for bytecode.
#[derive(Clone, Copy, Debug, PartialEq, Eq, Hash, PartialOrd, Ord, Structural)]
pub struct FlowId(pub u64);

impl FlowId {
    pub fn as_u64(self) -> (raw: u64)
        ensures
            raw == self.0,
    {
        self.0
    }

    pub open spec fn spec_text(self) -> Seq<char> {
        "flow#"@ + dec(self.0 as nat)
    }

    pub fn to_text(&self) -> (s: String)
        ensures
            s@ == self.spec_text(),
    {
        let mut s = String::from_str("flow#");
        push_dec(&mut s, self.0);
        s
    }
}

/// Hands out identifiers in ascending order, starting at 1. An identifier is
/// not handed out again before the counter's whole range is used up.
#[derive(Debug)]
pub struct IdSource {
    next: u64,
}

impl IdSource {
    pub closed spec fn peek(&self) -> u64 {
        self.next
    }

    pub fn new() -> (s: IdSource)
        ensures
            s.peek() == 1,
    {
        IdSource { next: 1 }
    }

    pub fn fresh(&mut self) -> (id: u64)
        ensures
            id == old(self).peek(),
            final(self).peek() == old(self).peek().wrapping_add(1),
    {
        let id: u64 = self.next;
        self.next = self.next.wrapping_add(1);
        id
    }
}

impl Default for IdSource {
    fn default() -> (s: IdSource)
        ensures
            s.peek() == 1,
    {
        IdSource::new()
    }
}

/// How a counter goes on after `n` draws.
pub open spec fn after_draws(next: u64, n: nat) -> u64
    decreases n,
{
    if n == 0 {
        next
    } else {
        after_draws(next, (n - 1) as nat).wrapping_add(1)
    }
}

/// What one source hands out at different times differs, whoever asks for it,
/// as long as the counter's range is not used up.
pub proof fn draws_differ(next: u64, i: nat, j: nat)
    requires
        i < j,
        next + j <= u64::MAX,
    ensures
        after_draws(next, i) == next + i,
        after_draws(next, j) == next + j,
        after_draws(next, i) != after_draws(next, j),
    decreases j,
{
    counting_up(next, i);
    counting_up(next, j);
}

proof fn counting_up(next: u64, n: nat)
    requires
        next + n <= u64::MAX,
    ensures
        after_draws(next, n) == next + n,
    decreases n,
{
    if n > 0 {
        counting_up(next, (n - 1) as nat);
    }
}

/// Where the identities of flows and the handles of capabilities come from. A
/// process has one of it for all its runtimes, so that no identity and no
/// handle of one runtime means anything in another.
#[derive(Debug)]
pub struct Ids {
    pub flows: IdSource,
    pub caps: IdSource,
}

/// What is handed out next.
#[verifier::ext_equal]
pub struct IdsView {
    pub flow: u64,
    pub cap: u64,
}

impl IdsView {
    /// A flow got its identity.
    pub open spec fn flow_drawn(self) -> IdsView {
        IdsView { flow: self.flow.wrapping_add(1), ..self }
    }

    /// A capability got its handle.
    pub open spec fn cap_drawn(self) -> IdsView {
        IdsView { cap: self.cap.wrapping_add(1), ..self }
    }

    /// There are identities and handles left.
    pub open spec fn left(self) -> bool {
        self.flow < u64::MAX && self.cap < u64::MAX
    }

    /// What was handed out before is not handed out again.
    pub open spec fn before(self, later: IdsView) -> bool {
        self.flow <= later.flow && self.cap <= later.cap
    }
}

impl View for Ids {
    type V = IdsView;

    open spec fn view(&self) -> IdsView {
        IdsView { flow: self.flows.peek(), cap: self.caps.peek() }
    }
}

impl Ids {
    pub fn new() -> (ids: Ids)
        ensures
            ids@ == (IdsView { flow: 1, cap: 1 }),
    {
        Ids { flows: IdSource::new(), caps: IdSource::new() }
    }
}

impl Default for Ids {
    fn default() -> (ids: Ids)
        ensures
            ids@ == (IdsView { flow: 1, cap: 1 }),
    {
        Ids::new()
    }
}

/// The next flow identity.
pub fn next_flow_id(ids: &mut IdSource) -> (id: FlowId)
    ensures
        id.0 == old(ids).peek(),
        final(ids).peek() == old(ids).peek().wrapping_add(1),
{
    FlowId(ids.fresh())
}

/// The same under the name that process-oriented callers use.
pub fn next_process_id(ids: &mut IdSource) -> (id: ProcessId)
    ensures
        id.0 == old(ids).peek(),
        final(ids).peek() == old(ids).peek().wrapping_add(1),
{
    next_flow_id(ids)
}

/// Where a flow is in its life.
#[derive(Clone, Copy, Debug, PartialEq, Eq, Structural)]
pub enum FlowState {
    Ready,
    Running,
    Waiting,
    Sleeping,
    Terminated,
    Failed,
}

/// When a supervisor starts a child again.
#[derive(Clone, Copy, Debug, PartialEq, Eq, Structural)]
pub enum RestartPolicy {
    Always,
    OnFailure,
    Never,
}

/// Counters of one flow.
#[derive(Clone, Copy, Debug, PartialEq, Eq, Structural)]
pub struct FlowMetrics {
    pub instructions: u64,
    pub messages_sent: u64,
    pub messages_received: u64,
    pub reschedules: u64,
}

impl Default for FlowMetrics {
    fn default() -> (m: FlowMetrics)
        ensures
            m == (FlowMetrics {
                instructions: 0,
                messages_sent: 0,
                messages_received: 0,
                reschedules: 0,
            }),
    {
        FlowMetrics { instructions: 0, messages_sent: 0, messages_received: 0, reschedules: 0 }
    }
}

/// What a flow goes on with once a full mailbox has taken its message.
#[derive(Clone, Copy, Debug, PartialEq, Eq, Structural)]
pub enum PendingSend {
    FireAndForget,
    /// Wait for the reply with this correlation.
    Ask {
        dest_reg: u8,
        expect_request_id: u64,
        expect_sender: u64,
        timeout: Option<u64>,
    },
}

/// One flow: its VM and what the scheduler keeps about it. Exactly one place
/// holds a flow: a worker, a run queue, the timer, its own mailbox while it
/// waits for a message, or another mailbox while it waits for room.
#[derive(Debug)]
pub struct Flow {
    pub id: FlowId,
    pub vm: Vm,
    pub metrics: FlowMetrics,
    pub restart_policy: RestartPolicy,
    /// A message that arrived while the flow was about to wait.
    pub pending_message: Option<Value>,
    /// Register of the latest receive.
    pub last_receive_dest: Option<u8>,
    /// The supervisor that hears of the flow's end.
    pub supervisor: Option<u64>,
    pub pending_send: Option<PendingSend>,
}

/// A flow as a mathematical value.
#[verifier::ext_equal]
pub struct FlowView {
    pub id: FlowId,
    pub vm: VmView,
    pub metrics: FlowMetrics,
    pub restart_policy: RestartPolicy,
    pub pending_message: Option<Value>,
    pub last_receive_dest: Option<u8>,
    pub supervisor: Option<u64>,
    pub pending_send: Option<PendingSend>,
}

impl View for Flow {
    type V = FlowView;

    open spec fn view(&self) -> FlowView {
        FlowView {
            id: self.id,
            vm: self.vm@,
            metrics: self.metrics,
            restart_policy: self.restart_policy,
            pending_message: self.pending_message,
            last_receive_dest: self.last_receive_dest,
            supervisor: self.supervisor,
            pending_send: self.pending_send,
        }
    }
}

/// The view of an optional flow.
pub open spec fn opt_flow_view(f: Option<Box<Flow>>) -> Option<FlowView> {
    match f {
        Some(b) => Some((*b)@),
        None => None,
    }
}

impl FlowView {
    /// A flow that has not run yet.
    pub open spec fn fresh(
        id: FlowId,
        vm: VmView,
        restart_policy: RestartPolicy,
        supervisor: Option<u64>,
    ) -> FlowView {
        FlowView {
            id,
            vm,
            metrics: FlowMetrics {
                instructions: 0,
                messages_sent: 0,
                messages_received: 0,
                reschedules: 0,
            },
            restart_policy,
            pending_message: None,
            last_receive_dest: None,
            supervisor,
            pending_send: None,
        }
    }

    /// With `v` in register `reg`; unchanged if there is no such register.
    pub open spec fn resumed(self, reg: u8, v: Value) -> FlowView {
        match reg_write(self.vm.frames, reg, v) {
            Ok(frames) => FlowView { vm: VmView { frames, ..self.vm }, ..self },
            Err(_) => self,
        }
    }

    /// With one more message received.
    pub open spec fn counted_received(self) -> FlowView {
        FlowView {
            metrics: FlowMetrics {
                messages_received: self.metrics.messages_received.wrapping_add(1),
                ..self.metrics
            },
            ..self
        }
    }

    /// With one more message sent.
    pub open spec fn counted_sent(self) -> FlowView {
        FlowView {
            metrics: FlowMetrics {
                messages_sent: self.metrics.messages_sent.wrapping_add(1),
                ..self.metrics
            },
            ..self
        }
    }

    /// With message `v` delivered into the register of the latest receive.
    pub open spec fn received(self, v: Value) -> FlowView {
        match self.last_receive_dest {
            Some(dest) => self.resumed(dest, v).counted_received(),
            None => self,
        }
    }

    /// With message `v` delivered into `dest`.
    pub open spec fn received_at(self, dest: u8, v: Value) -> FlowView {
        self.resumed(dest, v).counted_received()
    }
}

impl Flow {
    pub fn new(id: FlowId, vm: Vm, restart_policy: RestartPolicy, supervisor: Option<u64>) -> (f: Flow)
        ensures
            f@ == FlowView::fresh(id, vm@, restart_policy, supervisor),
    {
        Flow {
            id,
            vm,
            metrics: FlowMetrics::default(),
            restart_policy,
            pending_message: None,
            last_receive_dest: None,
            supervisor,
            pending_send: None,
        }
    }

    /// Put `v` into a register, if there is such a register.
    pub fn resume(&mut self, reg: u8, v: Value)
        ensures
            final(self)@ == old(self)@.resumed(reg, v),
    {
        let _ = self.vm.resume_with(reg, v);
    }

    /// Deliver a message into the register of the latest receive.
    pub fn receive(&mut self, v: Value)
        ensures
            final(self)@ == old(self)@.received(v),
    {
        match self.last_receive_dest {
            Some(dest) => self.receive_at(dest, v),
            None => {},
        }
    }

    /// Deliver a message into `dest`.
    pub fn receive_at(&mut self, dest: u8, v: Value)
        ensures
            final(self)@ == old(self)@.received_at(dest, v),
    {
        self.resume(dest, v);
        self.metrics.messages_received = self.metrics.messages_received.wrapping_add(1);
    }

    pub fn count_sent(&mut self)
        ensures
            final(self)@ == old(self)@.counted_sent(),
    {
        self.metrics.messages_sent = self.metrics.messages_sent.wrapping_add(1);
    }
}

/// How a flow ended.
#[derive(Debug, PartialEq)]
pub enum FlowOutcome {
    Completed(Value),
    Failed(String),
}

/// An outcome as a mathematical value.
pub enum OutcomeView {
    Completed(Value),
    Failed(Seq<char>),
}

impl View for FlowOutcome {
    type V = OutcomeView;

    open spec fn view(&self) -> OutcomeView {
        match *self {
            FlowOutcome::Completed(v) => OutcomeView::Completed(v),
            FlowOutcome::Failed(s) => OutcomeView::Failed(s@),
        }
    }
}

impl Clone for FlowOutcome {
    fn clone(&self) -> (r: FlowOutcome)
        ensures
            r@ == self@,
    {
        match self {
            FlowOutcome::Completed(v) => FlowOutcome::Completed(v.clone()),
            FlowOutcome::Failed(s) => FlowOutcome::Failed(s.clone()),
        }
    }
}

/// Process-oriented names for the same things.
pub type ProcessId = FlowId;

pub type ProcessState = FlowState;

pub type ProcessMetrics = FlowMetrics;

pub type ProcessOutcome = FlowOutcome;

pub type Process = Flow;

/// `g` is `f`, the same flow with the same program under the same supervisor.
pub open spec fn same_flow(f: FlowView, g: FlowView) -> bool {
    &&& g.id == f.id
    &&& g.restart_policy == f.restart_policy
    &&& g.supervisor == f.supervisor
    &&& g.vm.chunk == f.vm.chunk
    &&& g.vm.natives == f.vm.natives
    &&& g.vm.gate == f.vm.gate
    &&& g.vm.executed == f.vm.executed
}

/// `g` is `f` with `v` in register `reg` of the running function, where that has
/// the register, and with no other register changed.
pub open spec fn holds(f: FlowView, g: FlowView, reg: u8, v: Value) -> bool {
    &&& same_flow(f, g)
    &&& f.vm.frames.len() > 0 && reg < f.vm.frames.last().registers.len() ==> lands(
        f.vm,
        g.vm,
        reg,
        v,
    )
    &&& f.vm.frames.len() == 0 || reg >= f.vm.frames.last().registers.len() ==> g.vm == f.vm
}

/// One more, modulo the width of the counter.
pub open spec fn next_count(n: u64, m: u64) -> bool {
    m == (n + 1) % 0x1_0000_0000_0000_0000
}

/// A value for a flow lands in the register that it is for, and changes nothing
/// else of the flow. A message lands in the register of the latest receive and is
/// counted.
pub proof fn flows_hold_what_they_get(f: FlowView, reg: u8, v: Value)
    ensures
        holds(f, f.resumed(reg, v), reg, v),
        f.resumed(reg, v) == (FlowView { vm: f.resumed(reg, v).vm, ..f }),
        holds(f, f.received_at(reg, v), reg, v),
        next_count(f.metrics.messages_received, f.received_at(reg, v).metrics.messages_received),
        f.received_at(reg, v).metrics.messages_sent == f.metrics.messages_sent,
        f.last_receive_dest matches Some(dest) ==> {
            &&& holds(f, f.received(v), dest, v)
            &&& next_count(f.metrics.messages_received, f.received(v).metrics.messages_received)
        },
        f.last_receive_dest is None ==> f.received(v) == f,
        same_flow(f, f.counted_sent()),
        f.counted_sent().vm == f.vm,
        next_count(f.metrics.messages_sent, f.counted_sent().metrics.messages_sent),
        f.counted_sent().metrics.messages_received == f.metrics.messages_received,
{
}

/// A new flow runs what it was made for, under the supervisor it was made for,
/// and nothing has happened to it.
pub proof fn fresh_flow_is_untouched(
    id: FlowId,
    vm: VmView,
    restart_policy: RestartPolicy,
    supervisor: Option<u64>,
)
    ensures
        ({
            let f = FlowView::fresh(id, vm, restart_policy, supervisor);
            &&& f.id == id
            &&& f.vm == vm
            &&& f.restart_policy == restart_policy
            &&& f.supervisor == supervisor
            &&& f.pending_message is None
            &&& f.last_receive_dest is None
            &&& f.pending_send is None
            &&& f.metrics.messages_sent == 0
            &&& f.metrics.messages_received == 0
            &&& f.metrics.reschedules == 0
        }),
{
}

/// What is drawn is not drawn again: the next number is one more, as long as the
/// range is not used up.
pub proof fn drawing_counts_up(ids: IdsView)
    requires
        ids.left(),
    ensures
        ids.flow_drawn().flow == ids.flow + 1,
        ids.flow_drawn().cap == ids.cap,
        ids.cap_drawn().cap == ids.cap + 1,
        ids.cap_drawn().flow == ids.flow,
{
}

} // verus!
