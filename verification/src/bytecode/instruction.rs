//! One decoded instruction.

use vstd::prelude::*;

use super::opcode::{ExtOpcode, Op, Opcode};

verus! {

/// An operation with three register operands and an immediate. Which of them
/// the operation reads is listed with it in [`Opcode`] and [`ExtOpcode`].
#[derive(Clone, Copy, Debug, PartialEq, Eq, Hash, Structural)]
pub struct Instruction {
    pub op: Op,
    pub a: u8,
    pub b: u8,
    pub c: u8,
    pub imm: i32,
}

/// The instruction with these parts.
pub open spec fn instr(op: Opcode, a: u8, b: u8, c: u8, imm: i32) -> Instruction {
    Instruction { op: Op::Core(op), a, b, c, imm }
}

/// The extended instruction with these parts.
pub open spec fn ext_instr(op: ExtOpcode, a: u8, b: u8, c: u8, imm: i32) -> Instruction {
    Instruction { op: Op::Ext(op), a, b, c, imm }
}

impl Instruction {
    pub fn new(op: Opcode, a: u8, b: u8, c: u8, imm: i32) -> (i: Instruction)
        ensures
            i == instr(op, a, b, c, imm),
    {
        Instruction { op: Op::Core(op), a, b, c, imm }
    }

    pub fn nullary(op: Opcode) -> (i: Instruction)
        ensures
            i == instr(op, 0, 0, 0, 0),
    {
        Instruction::new(op, 0, 0, 0, 0)
    }

    pub fn abc(op: Opcode, a: u8, b: u8, c: u8) -> (i: Instruction)
        ensures
            i == instr(op, a, b, c, 0),
    {
        Instruction::new(op, a, b, c, 0)
    }

    pub fn a_imm(op: Opcode, a: u8, imm: i32) -> (i: Instruction)
        ensures
            i == instr(op, a, 0, 0, imm),
    {
        Instruction::new(op, a, 0, 0, imm)
    }

    pub fn only_imm(op: Opcode, imm: i32) -> (i: Instruction)
        ensures
            i == instr(op, 0, 0, 0, imm),
    {
        Instruction::new(op, 0, 0, 0, imm)
    }

    pub fn ext(op: ExtOpcode, a: u8, b: u8, c: u8, imm: i32) -> (i: Instruction)
        ensures
            i == ext_instr(op, a, b, c, imm),
    {
        Instruction { op: Op::Ext(op), a, b, c, imm }
    }
}

} // verus!
