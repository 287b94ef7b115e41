//! Byteflow: an embeddable runtime for flows.
//!
//! A flow is a small virtual process. Its code is register bytecode that the
//! host assembles ([`Program`], [`ChunkBuilder`]); a [`Vm`] runs it; many flows
//! share a few worker threads; and they talk through mailboxes, one
//! [`Message`] at a time.
//!
//! - [`bytecode`]: values, instructions, modules, their assembly and check.
//! - [`vm`]: the interpreter of one flow. [`vm::semantics`] says what each
//!   instruction does.
//! - [`scheduler`]: mailboxes, capabilities, monitors, links, names, timers,
//!   supervision, and the state that ties them together.
//!   [`scheduler::model`] says what each step of the scheduler does.
//! - [`natives`]: the standard native functions.
//! - [`jit`]: the interface of compiled traces.
//! - [`samples`], [`cli`], [`log`], [`output`]: what a host program needs
//!   around them.
//!
//! Nothing here starts a thread, reads a clock or prints. The host does, and
//! hands in what it read.

pub mod bytecode;
pub mod cli;
pub mod jit;
pub mod log;
pub mod natives;
pub mod output;
pub mod samples;
pub mod scheduler;
pub mod seqs;
pub mod text;
pub mod vm;

pub use bytecode::builder::{ChunkBuilder, Label};
pub use bytecode::cap::{Cap, CapTarget, NativeMask, RevocationCell};
pub use bytecode::chunk::{Chunk, FunctionDef, ABI_VERSION, MAGIC};
pub use bytecode::instruction::Instruction;
pub use bytecode::opcode::{ExtOpcode, Op, Opcode};
pub use bytecode::program::{FuncId, Program, Reg, RegWindow};
pub use bytecode::value::{Message, Value, TAG_SYS_DOWN, TAG_SYS_EXIT};
pub use bytecode::verify::{verify, VerifyError};
pub use natives::{std_native_map, std_native_table, std_natives};
pub use output::{NullSink, StdoutSink};
pub use scheduler::capability::{CapId, CapRights};
pub use scheduler::delegate::{exec_delegate, DelegateError};
pub use scheduler::error::{
    fault_count, report_fault, FaultLog, LifecycleError, RuntimeError, SpawnError,
};
pub use scheduler::handle::FlowHandle;
pub use scheduler::link::LinkId;
pub use scheduler::mailbox::capacity::{MailboxBytes, MailboxCapacity};
pub use scheduler::mailbox::metrics::MailboxStats;
pub use scheduler::mailbox::policy::{MailboxConfig, OverflowPolicy};
pub use scheduler::mailbox::queue::MailboxFullReason;
pub use scheduler::mailbox::{Delivery, Mailbox, MailboxFull, WaitFilter};
pub use scheduler::metrics::{RuntimeMetrics, RuntimeMetricsSnapshot};
pub use scheduler::monitor::{FlowExitReason, MonitorRef};
pub use scheduler::process::{
    next_flow_id, Flow, FlowId, FlowMetrics, FlowOutcome, FlowState, IdSource, Ids,
    RestartPolicy,
};
pub use scheduler::runtime::{
    flow_id_from_u64, JitConfig, Runtime, RuntimeConfig, RuntimeSpawner, SendError,
    DEFAULT_QUANTUM,
};
pub use scheduler::supervisor::{ChildSpec, Supervisor, SupervisorConfig};
pub use vm::fault::Fault;
pub use vm::machine::{Vm, MAX_CALL_DEPTH};
pub use vm::native::{
    expect_arg, expect_bool, expect_int, expect_message, expect_u64, NativeFn, NativeGate,
    NativeResult, NativeTable, NativeTableBuilder,
};
pub use vm::result::VmResult;
