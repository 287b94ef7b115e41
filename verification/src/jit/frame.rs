//! Layout of the frame that compiled traces work on.

use vstd::prelude::*;

verus! {

/// Byte offsets of the frame's fields.
pub const OFF_REGISTER_COUNT: i32 = 8;

pub const OFF_PC: i32 = 12;

pub const OFF_BUDGET: i32 = 16;

pub const OFF_FUNCTION: i32 = 20;

pub const OFF_EXIT_KIND: i32 = 24;

pub const OFF_RETURN_REG: i32 = 28;

pub const OFF_CALL_DEPTH: i32 = 32;

pub const OFF_CALL_STACK: i32 = 40;

/// Most calls that may be nested inside one trace.
pub const MAX_JIT_CALL_DEPTH: usize = 32;

/// What is kept of a caller.
#[derive(Clone, Copy, Debug, PartialEq, Eq, Structural)]
pub struct JitCallRecord {
    pub return_pc: u32,
    pub return_function: u32,
    pub dest_reg: u32,
    pub caller_register_count: u32,
}

} // verus!
