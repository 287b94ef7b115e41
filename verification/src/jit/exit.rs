//! How compiled traces tell why they stopped.

use vstd::prelude::*;

verus! {

/// Why a compiled trace stopped.
#[derive(Clone, Copy, Debug, PartialEq, Eq, Structural)]
pub enum ExitReason {
    /// Go on in compiled code at `pc`.
    Continue { pc: u32 },
    /// The interpreter or the scheduler takes over at `pc`.
    Effect { pc: u32 },
    /// The outermost function returned the value of `return_reg`.
    Return { return_reg: u8 },
    /// The budget was used up.
    Budget { pc: u32 },
    /// A fault.
    Trap { pc: u32 },
    /// A type was not as assumed; the interpreter takes over at `pc`.
    Deopt { pc: u32 },
}

/// An [`ExitReason`] in the form in which compiled code returns it.
#[derive(Clone, Copy, Debug, PartialEq, Eq, Structural)]
pub struct JitReturn {
    pub kind: u32,
    pub pc: u32,
    pub return_reg: u32,
}

pub const JIT_CONTINUE: u32 = 0;

pub const JIT_EFFECT: u32 = 1;

pub const JIT_RETURN: u32 = 2;

pub const JIT_BUDGET: u32 = 3;

pub const JIT_TRAP: u32 = 4;

pub const JIT_DEOPT: u32 = 5;

impl JitReturn {
    pub open spec fn encoded(reason: ExitReason) -> JitReturn {
        match reason {
            ExitReason::Continue { pc } => JitReturn { kind: JIT_CONTINUE, pc, return_reg: 0 },
            ExitReason::Effect { pc } => JitReturn { kind: JIT_EFFECT, pc, return_reg: 0 },
            ExitReason::Return { return_reg } => JitReturn {
                kind: JIT_RETURN,
                pc: 0,
                return_reg: return_reg as u32,
            },
            ExitReason::Budget { pc } => JitReturn { kind: JIT_BUDGET, pc, return_reg: 0 },
            ExitReason::Trap { pc } => JitReturn { kind: JIT_TRAP, pc, return_reg: 0 },
            ExitReason::Deopt { pc } => JitReturn { kind: JIT_DEOPT, pc, return_reg: 0 },
        }
    }

    pub fn from_reason(reason: ExitReason) -> (r: JitReturn)
        ensures
            r == JitReturn::encoded(reason),
    {
        match reason {
            ExitReason::Continue { pc } => JitReturn { kind: JIT_CONTINUE, pc, return_reg: 0 },
            ExitReason::Effect { pc } => JitReturn { kind: JIT_EFFECT, pc, return_reg: 0 },
            ExitReason::Return { return_reg } => JitReturn {
                kind: JIT_RETURN,
                pc: 0,
                return_reg: return_reg as u32,
            },
            ExitReason::Budget { pc } => JitReturn { kind: JIT_BUDGET, pc, return_reg: 0 },
            ExitReason::Trap { pc } => JitReturn { kind: JIT_TRAP, pc, return_reg: 0 },
            ExitReason::Deopt { pc } => JitReturn { kind: JIT_DEOPT, pc, return_reg: 0 },
        }
    }

    /// The reason. A kind that nobody encodes leaves the trace to the
    /// interpreter; of a register number the low byte counts.
    pub open spec fn decoded(self) -> ExitReason {
        if self.kind == JIT_CONTINUE {
            ExitReason::Continue { pc: self.pc }
        } else if self.kind == JIT_EFFECT {
            ExitReason::Effect { pc: self.pc }
        } else if self.kind == JIT_RETURN {
            ExitReason::Return { return_reg: self.return_reg as u8 }
        } else if self.kind == JIT_BUDGET {
            ExitReason::Budget { pc: self.pc }
        } else if self.kind == JIT_TRAP {
            ExitReason::Trap { pc: self.pc }
        } else {
            ExitReason::Deopt { pc: self.pc }
        }
    }

    pub fn into_reason(self) -> (r: ExitReason)
        ensures
            r == self.decoded(),
    {
        if self.kind == JIT_CONTINUE {
            ExitReason::Continue { pc: self.pc }
        } else if self.kind == JIT_EFFECT {
            ExitReason::Effect { pc: self.pc }
        } else if self.kind == JIT_RETURN {
            ExitReason::Return { return_reg: self.return_reg as u8 }
        } else if self.kind == JIT_BUDGET {
            ExitReason::Budget { pc: self.pc }
        } else if self.kind == JIT_TRAP {
            ExitReason::Trap { pc: self.pc }
        } else {
            ExitReason::Deopt { pc: self.pc }
        }
    }
}

/// Every reason survives the way through compiled code.
pub proof fn reason_round_trip(reason: ExitReason)
    ensures
        JitReturn::encoded(reason).decoded() == reason,
{
    match reason {
        ExitReason::Return { return_reg } => {
            assert((return_reg as u32) as u8 == return_reg);
        },
        _ => {},
    }
}

} // verus!
