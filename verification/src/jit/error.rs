//! Why a trace could not be compiled.

use vstd::prelude::*;

use crate::bytecode::opcode::Opcode;
use crate::text::{dec, push_dec};

verus! {

#[derive(Clone, Debug)]
pub enum CompileError {
    Backend(String),
    EmptyTrace { function: u32, pc: u32 },
    UndefinedRegister { reg: u8, pc: u32 },
    UnsupportedOpcode { opcode: Opcode, pc: u32 },
    TraceTooLong { pc: u32, limit: usize },
    Module(String),
}

impl CompileError {
    pub open spec fn spec_text(self) -> Seq<char> {
        match self {
            CompileError::Backend(why) => "cranelift backend: "@ + why@,
            CompileError::EmptyTrace { function, pc } => "trace empty at function "@ + dec(
                function as nat,
            ) + " pc "@ + dec(pc as nat),
            CompileError::UndefinedRegister { reg, pc } => "undefined register "@ + dec(reg as nat)
                + " at pc "@ + dec(pc as nat),
            CompileError::UnsupportedOpcode { opcode, pc } => "unsupported opcode "@
                + opcode.spec_name()@ + " at pc "@ + dec(pc as nat),
            CompileError::TraceTooLong { pc, limit } => "trace longer than "@ + dec(limit as nat)
                + " at pc "@ + dec(pc as nat),
            CompileError::Module(why) => "module error: "@ + why@,
        }
    }

    pub fn to_text(&self) -> (s: String)
        ensures
            s@ == self.spec_text(),
    {
        match self {
            CompileError::Backend(why) => {
                let mut s = String::from_str("cranelift backend: ");
                s.append(why.as_str());
                s
            },
            CompileError::EmptyTrace { function, pc } => {
                let mut s = String::from_str("trace empty at function ");
                push_dec(&mut s, *function as u64);
                s.append(" pc ");
                push_dec(&mut s, *pc as u64);
                s
            },
            CompileError::UndefinedRegister { reg, pc } => {
                let mut s = String::from_str("undefined register ");
                push_dec(&mut s, *reg as u64);
                s.append(" at pc ");
                push_dec(&mut s, *pc as u64);
                s
            },
            CompileError::UnsupportedOpcode { opcode, pc } => {
                let mut s = String::from_str("unsupported opcode ");
                s.append(opcode.name());
                s.append(" at pc ");
                push_dec(&mut s, *pc as u64);
                s
            },
            CompileError::TraceTooLong { pc, limit } => {
                let mut s = String::from_str("trace longer than ");
                push_dec(&mut s, *limit as u64);
                s.append(" at pc ");
                push_dec(&mut s, *pc as u64);
                s
            },
            CompileError::Module(why) => {
                let mut s = String::from_str("module error: ");
                s.append(why.as_str());
                s
            },
        }
    }
}

} // verus!
