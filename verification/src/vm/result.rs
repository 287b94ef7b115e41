//! What a run of the interpreter ends in.

use vstd::prelude::*;

use super::fault::{Fault, FaultView};
use super::native::NativeFn;
use crate::bytecode::cap::CapRights;
use crate::bytecode::value::Value;

verus! {

/// An operation on floating-point numbers, which the host computes.
#[derive(Clone, Copy, Debug, PartialEq, Eq, Structural)]
pub enum FloatOp {
    Add,
    Sub,
    Mul,
    Div,
    Lt,
    Le,
}

/// Why the interpreter stopped. It touches no thread, mailbox or timer: it
/// runs until it is done, out of budget, or in need of something that only
/// the scheduler or the host can do.
///
/// Times are in milliseconds.
#[derive(Debug)]
pub enum VmResult {
    /// The outermost frame returned.
    Complete(Value),
    /// The flow yielded, or its budget is used up.
    Yield,
    Sleep(u64),
    /// Create a child; a capability for it goes to `dest_reg`.
    Spawn { function: u32, args: Vec<Value>, dest_reg: u8, requested_rights: CapRights },
    /// A capability for the flow itself goes to `dest_reg`.
    SelfPid { dest_reg: u8 },
    Send { target_cap: u64, message: Value },
    Receive { dest_reg: u8, timeout: Option<u64>, match_tag: Option<u16> },
    Ask { dest_reg: u8, target_cap: u64, request: Value, timeout: Option<u64> },
    Monitor { dest_reg: u8, target_cap: u64 },
    Demonitor { monitor_reg: u8 },
    Link { dest_reg: u8, target_cap: u64 },
    Unlink { link_reg: u8 },
    Delegate {
        dest_reg: u8,
        src_cap: u64,
        want_rights: CapRights,
        want_native_cap: Option<u64>,
    },
    /// Call a native function of the host; its result goes to `dest_reg`.
    Native { native: NativeFn, args: Vec<Value>, dest_reg: u8 },
    /// Compute `lhs op rhs`, each an integer or a floating-point number; the
    /// result goes to `dest_reg`.
    Float { op: FloatOp, lhs: Value, rhs: Value, dest_reg: u8 },
    Trap(Fault),
}

/// A [`VmResult`] as a mathematical value.
#[verifier::ext_equal]
pub enum VmResultView {
    Complete(Value),
    Yield,
    Sleep(u64),
    Spawn { function: u32, args: Seq<Value>, dest_reg: u8, requested_rights: CapRights },
    SelfPid { dest_reg: u8 },
    Send { target_cap: u64, message: Value },
    Receive { dest_reg: u8, timeout: Option<u64>, match_tag: Option<u16> },
    Ask { dest_reg: u8, target_cap: u64, request: Value, timeout: Option<u64> },
    Monitor { dest_reg: u8, target_cap: u64 },
    Demonitor { monitor_reg: u8 },
    Link { dest_reg: u8, target_cap: u64 },
    Unlink { link_reg: u8 },
    Delegate {
        dest_reg: u8,
        src_cap: u64,
        want_rights: CapRights,
        want_native_cap: Option<u64>,
    },
    Native { native: NativeFn, args: Seq<Value>, dest_reg: u8 },
    Float { op: FloatOp, lhs: Value, rhs: Value, dest_reg: u8 },
    Trap(FaultView),
}

impl View for VmResult {
    type V = VmResultView;

    open spec fn view(&self) -> VmResultView {
        match *self {
            VmResult::Complete(v) => VmResultView::Complete(v),
            VmResult::Yield => VmResultView::Yield,
            VmResult::Sleep(ms) => VmResultView::Sleep(ms),
            VmResult::Spawn { function, args, dest_reg, requested_rights } => VmResultView::Spawn {
                function,
                args: args@,
                dest_reg,
                requested_rights,
            },
            VmResult::SelfPid { dest_reg } => VmResultView::SelfPid { dest_reg },
            VmResult::Send { target_cap, message } => VmResultView::Send { target_cap, message },
            VmResult::Receive { dest_reg, timeout, match_tag } => VmResultView::Receive {
                dest_reg,
                timeout,
                match_tag,
            },
            VmResult::Ask { dest_reg, target_cap, request, timeout } => VmResultView::Ask {
                dest_reg,
                target_cap,
                request,
                timeout,
            },
            VmResult::Monitor { dest_reg, target_cap } => VmResultView::Monitor {
                dest_reg,
                target_cap,
            },
            VmResult::Demonitor { monitor_reg } => VmResultView::Demonitor { monitor_reg },
            VmResult::Link { dest_reg, target_cap } => VmResultView::Link { dest_reg, target_cap },
            VmResult::Unlink { link_reg } => VmResultView::Unlink { link_reg },
            VmResult::Delegate { dest_reg, src_cap, want_rights, want_native_cap } =>
                VmResultView::Delegate { dest_reg, src_cap, want_rights, want_native_cap },
            VmResult::Native { native, args, dest_reg } => VmResultView::Native {
                native,
                args: args@,
                dest_reg,
            },
            VmResult::Float { op, lhs, rhs, dest_reg } => VmResultView::Float {
                op,
                lhs,
                rhs,
                dest_reg,
            },
            VmResult::Trap(f) => VmResultView::Trap(f@),
        }
    }
}

/// The view of an optional result.
pub open spec fn opt_result_view(r: Option<VmResult>) -> Option<VmResultView> {
    match r {
        Some(x) => Some(x@),
        None => None,
    }
}

} // verus!
