//! The instruction set.
//!
//! Byteflow is a register machine. Every [`Opcode`] has a byte that is part
//! of the stable module format: an existing byte is never given another
//! meaning. The operations of [`ExtOpcode`] are emitted and executed in
//! memory only and have no byte.

use vstd::prelude::*;

verus! {

/// An operation with a byte of its own in the module format.
#[derive(Clone, Copy, Debug, PartialEq, Eq, Hash, Structural)]
pub enum Opcode {
    /// Stop the flow; `r0` is its result.
    Halt,
    /// `LoadConst ra, imm`: `r[a] = constants[imm]`.
    LoadConst,
    /// `Move ra, rb`: `r[a] = r[b]`.
    Move,
    /// `LoadImm ra, imm`: `r[a] = Int(imm)`, without the constant pool.
    LoadImm,
    Add,
    Sub,
    Mul,
    Div,
    Mod,
    Neg,
    /// Comparisons write a `Value::Bool` into `r[a]`.
    Eq,
    Lt,
    Le,
    /// `Jump imm`: relative to the instruction after this one.
    Jump,
    /// `Branch ra, imm`: jump by `imm` iff `r[a]` is falsy.
    Branch,
    /// `Call ra, imm, nb`: arguments in `r[a..a+b]`, result in `r[a]`.
    Call,
    /// `Return ra`: hand `r[a]` to the caller, or finish the flow.
    Return,
    /// Like `Call`, through the native table.
    CallNative,
    /// `Spawn ra, imm, nb`: arguments in `r[a+1..a+1+b]`; a capability for the child lands in `r[a]`.
    Spawn,
    /// Give the worker back.
    Yield,
    /// `Sleep ra`: suspend for `r[a]` milliseconds.
    Sleep,
    /// `Exit ra`: finish the flow with `r[a]`.
    Exit,
    /// `SelfPid ra`: a capability for the running flow lands in `r[a]`.
    SelfPid,
    /// `Send ra, rb`: deliver the message `r[b]` through the capability `r[a]`.
    Send,
    /// `Receive ra`: the next message, waiting for one if need be.
    Receive,
    /// `ReceiveTimeout ra, rb`: give up after `r[b]` milliseconds with `Unit`.
    ReceiveTimeout,
    /// `Trap imm`: a deliberate fault.
    Trap,
    /// No operation.
    Nop,
}

impl Opcode {
    /// The byte that stands for this operation in a module.
    pub open spec fn byte(self) -> u8 {
        match self {
            Opcode::Halt => 0x00,
            Opcode::LoadConst => 0x01,
            Opcode::Move => 0x02,
            Opcode::LoadImm => 0x03,
            Opcode::Add => 0x10,
            Opcode::Sub => 0x11,
            Opcode::Mul => 0x12,
            Opcode::Div => 0x13,
            Opcode::Mod => 0x14,
            Opcode::Neg => 0x15,
            Opcode::Eq => 0x18,
            Opcode::Lt => 0x19,
            Opcode::Le => 0x1A,
            Opcode::Jump => 0x20,
            Opcode::Branch => 0x21,
            Opcode::Call => 0x30,
            Opcode::Return => 0x31,
            Opcode::CallNative => 0x32,
            Opcode::Spawn => 0x40,
            Opcode::Yield => 0x41,
            Opcode::Sleep => 0x42,
            Opcode::Exit => 0x43,
            Opcode::SelfPid => 0x44,
            Opcode::Send => 0x50,
            Opcode::Receive => 0x51,
            Opcode::ReceiveTimeout => 0x52,
            Opcode::Trap => 0x60,
            Opcode::Nop => 0x61,
        }
    }

    /// Decode a byte. `None` for every byte that no operation has.
    pub fn from_u8(byte: u8) -> (op: Option<Opcode>)
        ensures
            op matches Some(o) ==> o.byte() == byte,
            op is None ==> forall|o: Opcode| (#[trigger] o.byte()) != byte,
    {
        match byte {
            0x00 => Some(Opcode::Halt),
            0x01 => Some(Opcode::LoadConst),
            0x02 => Some(Opcode::Move),
            0x03 => Some(Opcode::LoadImm),
            0x10 => Some(Opcode::Add),
            0x11 => Some(Opcode::Sub),
            0x12 => Some(Opcode::Mul),
            0x13 => Some(Opcode::Div),
            0x14 => Some(Opcode::Mod),
            0x15 => Some(Opcode::Neg),
            0x18 => Some(Opcode::Eq),
            0x19 => Some(Opcode::Lt),
            0x1A => Some(Opcode::Le),
            0x20 => Some(Opcode::Jump),
            0x21 => Some(Opcode::Branch),
            0x30 => Some(Opcode::Call),
            0x31 => Some(Opcode::Return),
            0x32 => Some(Opcode::CallNative),
            0x40 => Some(Opcode::Spawn),
            0x41 => Some(Opcode::Yield),
            0x42 => Some(Opcode::Sleep),
            0x43 => Some(Opcode::Exit),
            0x44 => Some(Opcode::SelfPid),
            0x50 => Some(Opcode::Send),
            0x51 => Some(Opcode::Receive),
            0x52 => Some(Opcode::ReceiveTimeout),
            0x60 => Some(Opcode::Trap),
            0x61 => Some(Opcode::Nop),
            _ => None,
        }
    }

    pub fn as_u8(self) -> (byte: u8)
        ensures
            byte == self.byte(),
    {
        match self {
            Opcode::Halt => 0x00,
            Opcode::LoadConst => 0x01,
            Opcode::Move => 0x02,
            Opcode::LoadImm => 0x03,
            Opcode::Add => 0x10,
            Opcode::Sub => 0x11,
            Opcode::Mul => 0x12,
            Opcode::Div => 0x13,
            Opcode::Mod => 0x14,
            Opcode::Neg => 0x15,
            Opcode::Eq => 0x18,
            Opcode::Lt => 0x19,
            Opcode::Le => 0x1A,
            Opcode::Jump => 0x20,
            Opcode::Branch => 0x21,
            Opcode::Call => 0x30,
            Opcode::Return => 0x31,
            Opcode::CallNative => 0x32,
            Opcode::Spawn => 0x40,
            Opcode::Yield => 0x41,
            Opcode::Sleep => 0x42,
            Opcode::Exit => 0x43,
            Opcode::SelfPid => 0x44,
            Opcode::Send => 0x50,
            Opcode::Receive => 0x51,
            Opcode::ReceiveTimeout => 0x52,
            Opcode::Trap => 0x60,
            Opcode::Nop => 0x61,
        }
    }

    /// The name that a listing shows.
    pub open spec fn spec_name(self) -> &'static str {
        match self {
            Opcode::Halt => "Halt",
            Opcode::LoadConst => "LoadConst",
            Opcode::Move => "Move",
            Opcode::LoadImm => "LoadImm",
            Opcode::Add => "Add",
            Opcode::Sub => "Sub",
            Opcode::Mul => "Mul",
            Opcode::Div => "Div",
            Opcode::Mod => "Mod",
            Opcode::Neg => "Neg",
            Opcode::Eq => "Eq",
            Opcode::Lt => "Lt",
            Opcode::Le => "Le",
            Opcode::Jump => "Jump",
            Opcode::Branch => "Branch",
            Opcode::Call => "Call",
            Opcode::Return => "Return",
            Opcode::CallNative => "CallNative",
            Opcode::Spawn => "Spawn",
            Opcode::Yield => "Yield",
            Opcode::Sleep => "Sleep",
            Opcode::Exit => "Exit",
            Opcode::SelfPid => "SelfPid",
            Opcode::Send => "Send",
            Opcode::Receive => "Receive",
            Opcode::ReceiveTimeout => "ReceiveTimeout",
            Opcode::Trap => "Trap",
            Opcode::Nop => "Nop",
        }
    }

    pub fn name(self) -> (r: &'static str)
        ensures
            r == self.spec_name(),
    {
        match self {
            Opcode::Halt => "Halt",
            Opcode::LoadConst => "LoadConst",
            Opcode::Move => "Move",
            Opcode::LoadImm => "LoadImm",
            Opcode::Add => "Add",
            Opcode::Sub => "Sub",
            Opcode::Mul => "Mul",
            Opcode::Div => "Div",
            Opcode::Mod => "Mod",
            Opcode::Neg => "Neg",
            Opcode::Eq => "Eq",
            Opcode::Lt => "Lt",
            Opcode::Le => "Le",
            Opcode::Jump => "Jump",
            Opcode::Branch => "Branch",
            Opcode::Call => "Call",
            Opcode::Return => "Return",
            Opcode::CallNative => "CallNative",
            Opcode::Spawn => "Spawn",
            Opcode::Yield => "Yield",
            Opcode::Sleep => "Sleep",
            Opcode::Exit => "Exit",
            Opcode::SelfPid => "SelfPid",
            Opcode::Send => "Send",
            Opcode::Receive => "Receive",
            Opcode::ReceiveTimeout => "ReceiveTimeout",
            Opcode::Trap => "Trap",
            Opcode::Nop => "Nop",
        }
    }
}

/// Two operations with the same byte are the same operation, so decoding what
/// was encoded gives the operation back.
pub proof fn byte_is_injective(a: Opcode, b: Opcode)
    ensures
        a.byte() == b.byte() <==> a == b,
{
}

/// The bytes of the module format.
pub proof fn bytes_of_the_format()
    ensures
        Opcode::Halt.byte() == 0x00,
        Opcode::LoadConst.byte() == 0x01,
        Opcode::Move.byte() == 0x02,
        Opcode::LoadImm.byte() == 0x03,
        Opcode::Add.byte() == 0x10,
        Opcode::Sub.byte() == 0x11,
        Opcode::Mul.byte() == 0x12,
        Opcode::Div.byte() == 0x13,
        Opcode::Mod.byte() == 0x14,
        Opcode::Neg.byte() == 0x15,
        Opcode::Eq.byte() == 0x18,
        Opcode::Lt.byte() == 0x19,
        Opcode::Le.byte() == 0x1A,
        Opcode::Jump.byte() == 0x20,
        Opcode::Branch.byte() == 0x21,
        Opcode::Call.byte() == 0x30,
        Opcode::Return.byte() == 0x31,
        Opcode::CallNative.byte() == 0x32,
        Opcode::Spawn.byte() == 0x40,
        Opcode::Yield.byte() == 0x41,
        Opcode::Sleep.byte() == 0x42,
        Opcode::Exit.byte() == 0x43,
        Opcode::SelfPid.byte() == 0x44,
        Opcode::Send.byte() == 0x50,
        Opcode::Receive.byte() == 0x51,
        Opcode::ReceiveTimeout.byte() == 0x52,
        Opcode::Trap.byte() == 0x60,
        Opcode::Nop.byte() == 0x61,
{
}

/// An operation without a byte in the module format: selective receive,
/// request and reply, lifecycle relations and delegation.
#[derive(Clone, Copy, Debug, PartialEq, Eq, Hash, Structural)]
pub enum ExtOpcode {
    /// `ReceiveMatch ra, rb`: the next message whose tag is `r[b]`.
    ReceiveMatch,
    /// `ReceiveMatchImm ra, imm`: the next message whose tag is `imm`.
    ReceiveMatchImm,
    /// `Ask ra, rb, rc`: send the request `r[c]` through the capability
    /// `r[b]` and wait for the reply in `r[a]`.
    Ask,
    /// `AskTimeout ra, rb, rc, imm`: like `Ask`, giving up after the
    /// milliseconds in register `imm`.
    AskTimeout,
    /// `Monitor ra, rb`: watch the flow behind the capability `r[b]`.
    Monitor,
    /// `Demonitor ra`: drop the monitor whose reference is `r[a]`.
    Demonitor,
    /// `Link ra, rb`: link with the flow behind the capability `r[b]`.
    Link,
    /// `Unlink ra`: drop the link whose id is `r[a]`.
    Unlink,
    /// `Delegate ra, rb, rc, imm`: a narrowed copy of the capability `r[b]`.
    Delegate,
}

/// What an instruction does.
#[derive(Clone, Copy, Debug, PartialEq, Eq, Hash, Structural)]
pub enum Op {
    Core(Opcode),
    Ext(ExtOpcode),
}

} // verus!
