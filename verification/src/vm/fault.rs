//! Faults of a running flow.

use vstd::prelude::*;

use crate::text::{dec, dec_int, hex2, push_dec, push_dec_int, push_hex2};

verus! {

/// What can go wrong inside a flow. A fault ends the flow, never the worker.
#[derive(Clone, Debug, PartialEq)]
pub enum Fault {
    DivideByZero,
    RegisterOutOfRange { reg: u8, frame_size: u8 },
    /// A run of consecutive registers leaves the register index space.
    RegisterIndexOverflow { base: u8, offset: u8 },
    BadConstant { index: u32, pool_size: u32 },
    BadFunction { index: u32, table_size: u32 },
    BadOpcodeByte(u8),
    /// The call stack reached [`super::machine::MAX_CALL_DEPTH`].
    CallStackOverflow { depth: usize },
    TypeMismatch { expected: &'static str, got: &'static str },
    /// The native table has no function at this index.
    BadNative { index: u32, table_size: u32 },
    /// A native function failed.
    NativeError(String),
    /// The flow may not call this native function.
    NativeDenied(String),
    /// The `Trap` operation.
    Explicit(i32),
    /// The interpreter was resumed in a state that no run leaves behind.
    Invariant(&'static str),
}

/// A fault as a mathematical value.
pub enum FaultView {
    Plain(Fault),
    NativeError(Seq<char>),
    NativeDenied(Seq<char>),
}

impl View for Fault {
    type V = FaultView;

    open spec fn view(&self) -> FaultView {
        match *self {
            Fault::NativeError(s) => FaultView::NativeError(s@),
            Fault::NativeDenied(s) => FaultView::NativeDenied(s@),
            f => FaultView::Plain(f),
        }
    }
}

/// The view of a result that may be a fault.
pub open spec fn result_view<T>(r: Result<T, Fault>) -> Result<T, FaultView> {
    match r {
        Ok(v) => Ok(v),
        Err(f) => Err(f@),
    }
}

/// The fault of a value of the wrong type.
pub open spec fn mismatch(expected: &'static str, got: &'static str) -> FaultView {
    FaultView::Plain(Fault::TypeMismatch { expected, got })
}

impl FaultView {
    pub open spec fn spec_text(self) -> Seq<char> {
        match self {
            FaultView::NativeError(s) => "native function error: "@ + s,
            FaultView::NativeDenied(s) => "native function denied: "@ + s,
            FaultView::Plain(f) => match f {
                Fault::DivideByZero => "division by zero"@,
                Fault::RegisterOutOfRange { reg, frame_size } => "register r"@ + dec(reg as nat)
                    + " out of range (frame has "@ + dec(frame_size as nat) + " registers)"@,
                Fault::RegisterIndexOverflow { base, offset } => "register index r"@ + dec(
                    base as nat,
                ) + " + "@ + dec(offset as nat) + " overflows the register space"@,
                Fault::BadConstant { index, pool_size } => "constant index "@ + dec(index as nat)
                    + " out of range (pool size "@ + dec(pool_size as nat) + ")"@,
                Fault::BadFunction { index, table_size } => "function index "@ + dec(index as nat)
                    + " out of range (table size "@ + dec(table_size as nat) + ")"@,
                Fault::BadOpcodeByte(b) => "unknown opcode byte 0x"@ + hex2(b),
                Fault::CallStackOverflow { depth } => "call stack overflow at depth "@ + dec(
                    depth as nat,
                ),
                Fault::TypeMismatch { expected, got } => "type mismatch: expected "@ + expected@
                    + ", got "@ + got@,
                Fault::BadNative { index, table_size } => "native function index "@ + dec(
                    index as nat,
                ) + " out of range (table size "@ + dec(table_size as nat) + ")"@,
                Fault::Explicit(code) => "explicit trap (code "@ + dec_int(code as int) + ")"@,
                Fault::Invariant(what) => "broken invariant: "@ + what@,
                Fault::NativeError(s) => "native function error: "@ + s@,
                Fault::NativeDenied(s) => "native function denied: "@ + s@,
            },
        }
    }
}

impl Fault {
    pub fn to_text(&self) -> (s: String)
        ensures
            s@ == self@.spec_text(),
    {
        match self {
            Fault::DivideByZero => String::from_str("division by zero"),
            Fault::RegisterOutOfRange { reg, frame_size } => {
                let mut s = String::from_str("register r");
                push_dec(&mut s, *reg as u64);
                s.append(" out of range (frame has ");
                push_dec(&mut s, *frame_size as u64);
                s.append(" registers)");
                s
            },
            Fault::RegisterIndexOverflow { base, offset } => {
                let mut s = String::from_str("register index r");
                push_dec(&mut s, *base as u64);
                s.append(" + ");
                push_dec(&mut s, *offset as u64);
                s.append(" overflows the register space");
                s
            },
            Fault::BadConstant { index, pool_size } => {
                let mut s = String::from_str("constant index ");
                push_dec(&mut s, *index as u64);
                s.append(" out of range (pool size ");
                push_dec(&mut s, *pool_size as u64);
                s.append(")");
                s
            },
            Fault::BadFunction { index, table_size } => {
                let mut s = String::from_str("function index ");
                push_dec(&mut s, *index as u64);
                s.append(" out of range (table size ");
                push_dec(&mut s, *table_size as u64);
                s.append(")");
                s
            },
            Fault::BadOpcodeByte(b) => {
                let mut s = String::from_str("unknown opcode byte 0x");
                push_hex2(&mut s, *b);
                s
            },
            Fault::CallStackOverflow { depth } => {
                let mut s = String::from_str("call stack overflow at depth ");
                push_dec(&mut s, *depth as u64);
                s
            },
            Fault::TypeMismatch { expected, got } => {
                let mut s = String::from_str("type mismatch: expected ");
                s.append(*expected);
                s.append(", got ");
                s.append(*got);
                s
            },
            Fault::BadNative { index, table_size } => {
                let mut s = String::from_str("native function index ");
                push_dec(&mut s, *index as u64);
                s.append(" out of range (table size ");
                push_dec(&mut s, *table_size as u64);
                s.append(")");
                s
            },
            Fault::NativeError(msg) => {
                let mut s = String::from_str("native function error: ");
                s.append(msg.as_str());
                s
            },
            Fault::NativeDenied(msg) => {
                let mut s = String::from_str("native function denied: ");
                s.append(msg.as_str());
                s
            },
            Fault::Explicit(code) => {
                let mut s = String::from_str("explicit trap (code ");
                push_dec_int(&mut s, *code as i64);
                s.append(")");
                s
            },
            Fault::Invariant(what) => {
                let mut s = String::from_str("broken invariant: ");
                s.append(*what);
                s
            },
        }
    }
}

} // verus!
