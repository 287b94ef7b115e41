//! Call frames.

use vstd::prelude::*;

use crate::bytecode::value::Value;

verus! {

/// One activation of a function.
#[derive(Debug)]
pub struct Frame {
    pub function: u32,
    pub pc: usize,
    pub registers: Vec<Value>,
    /// Register of the calling frame that takes the result; `None` for the
    /// outermost frame.
    pub dest_reg: Option<u8>,
}

/// A frame as a mathematical value.
#[verifier::ext_equal]
pub struct FrameView {
    pub function: u32,
    pub pc: usize,
    pub registers: Seq<Value>,
    pub dest_reg: Option<u8>,
}

impl View for Frame {
    type V = FrameView;

    open spec fn view(&self) -> FrameView {
        FrameView {
            function: self.function,
            pc: self.pc,
            registers: self.registers@,
            dest_reg: self.dest_reg,
        }
    }
}

impl Frame {
    /// A frame with all registers `Unit`.
    pub fn new(function: u32, num_registers: u8, dest_reg: Option<u8>) -> (f: Frame)
        ensures
            f@ == (FrameView {
                function,
                pc: 0,
                registers: Seq::new(num_registers as nat, |i: int| Value::Unit),
                dest_reg,
            }),
    {
        let mut registers: Vec<Value> = Vec::new();
        let mut i: u8 = 0;
        while i < num_registers
            invariant
                i <= num_registers,
                registers@ == Seq::new(i as nat, |j: int| Value::Unit),
            decreases num_registers - i,
        {
            registers.push(Value::Unit);
            i = i + 1;
            assert(registers@ =~= Seq::new(i as nat, |j: int| Value::Unit));
        }
        Frame { function, pc: 0, registers, dest_reg }
    }
}

} // verus!
