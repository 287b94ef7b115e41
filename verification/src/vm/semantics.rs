//! The meaning of every instruction, as functions on the state of the
//! interpreter.

use vstd::prelude::*;

use super::fault::{mismatch, Fault, FaultView};
use super::frame::FrameView;
use super::machine::MAX_CALL_DEPTH;
use super::native::{gate_verdict, native_at, NativeCallError, NativeFn};
use super::result::{FloatOp, VmResultView};
use crate::bytecode::cap::{CapRights, ALL_RIGHTS};
use crate::bytecode::chunk::{Chunk, FunctionDef};
use crate::bytecode::instruction::Instruction;
use crate::bytecode::opcode::{ExtOpcode, Op, Opcode};
use crate::bytecode::value::{float_neg, value_eq, Value};
use crate::natives::message_native;

verus! {

/// The state of the interpreter.
#[verifier::ext_equal]
pub struct VmView {
    pub chunk: Chunk,
    /// The native table, slot by slot.
    pub natives: Seq<Option<(Seq<char>, NativeFn)>>,
    /// Which native slots may be called.
    pub gate: Seq<bool>,
    /// Call stack, innermost frame last.
    pub frames: Seq<FrameView>,
    /// Instructions executed so far, modulo the counter's width.
    pub executed: u64,
}

/// The state of the stack after an instruction, and whether the run stops.
#[verifier::ext_equal]
pub struct Outcome {
    pub frames: Seq<FrameView>,
    pub stop: Option<VmResultView>,
}

pub open spec fn go(frames: Seq<FrameView>) -> Outcome {
    Outcome { frames, stop: None }
}

pub open spec fn stop(frames: Seq<FrameView>, r: VmResultView) -> Outcome {
    Outcome { frames, stop: Some(r) }
}

pub open spec fn trap(frames: Seq<FrameView>, f: FaultView) -> Outcome {
    stop(frames, VmResultView::Trap(f))
}

pub open spec fn trap_plain(frames: Seq<FrameView>, f: Fault) -> Outcome {
    trap(frames, FaultView::Plain(f))
}

/// The fault of running without a frame.
pub open spec fn no_frame() -> FaultView {
    FaultView::Plain(Fault::Invariant("empty frame stack while running"))
}

/// Register `reg` of the innermost frame.
pub open spec fn reg_read(frames: Seq<FrameView>, reg: u8) -> Result<Value, FaultView> {
    if frames.len() == 0 {
        Err(no_frame())
    } else {
        let regs = frames.last().registers;
        if reg < regs.len() {
            Ok(regs[reg as int])
        } else {
            Err(FaultView::Plain(Fault::RegisterOutOfRange { reg, frame_size: regs.len() as u8 }))
        }
    }
}

/// The stack with the innermost frame replaced.
pub open spec fn with_top(frames: Seq<FrameView>, top: FrameView) -> Seq<FrameView> {
    frames.drop_last().push(top)
}

/// The stack with register `reg` of the innermost frame set to `v`.
pub open spec fn reg_write(frames: Seq<FrameView>, reg: u8, v: Value) -> Result<
    Seq<FrameView>,
    FaultView,
> {
    if frames.len() == 0 {
        Err(no_frame())
    } else {
        let top = frames.last();
        if reg < top.registers.len() {
            Ok(
                with_top(
                    frames,
                    FrameView { registers: top.registers.update(reg as int, v), ..top },
                ),
            )
        } else {
            Err(
                FaultView::Plain(
                    Fault::RegisterOutOfRange { reg, frame_size: top.registers.len() as u8 },
                ),
            )
        }
    }
}

/// Set a register and go on.
pub open spec fn store(frames: Seq<FrameView>, reg: u8, v: Value) -> Outcome {
    match reg_write(frames, reg, v) {
        Ok(fs) => go(fs),
        Err(f) => trap(frames, f),
    }
}

/// The register `offset` after `base`. Leaving the register index space is a
/// fault: the sum never wraps to another register.
pub open spec fn reg_index(base: u8, offset: nat) -> Result<u8, FaultView> {
    if base + offset <= u8::MAX {
        Ok((base + offset) as u8)
    } else {
        Err(
            FaultView::Plain(
                Fault::RegisterIndexOverflow {
                    base,
                    offset: if offset <= u8::MAX {
                        offset as u8
                    } else {
                        u8::MAX
                    },
                },
            ),
        )
    }
}

/// The `n` registers from `base + first` on, or the first fault among them.
pub open spec fn gather(frames: Seq<FrameView>, base: u8, first: nat, n: nat) -> Result<
    Seq<Value>,
    FaultView,
>
    decreases n,
{
    if n == 0 {
        Ok(Seq::empty())
    } else {
        match gather(frames, base, first, (n - 1) as nat) {
            Err(f) => Err(f),
            Ok(values) => match reg_index(base, (first + n - 1) as nat) {
                Err(f) => Err(f),
                Ok(reg) => match reg_read(frames, reg) {
                    Err(f) => Err(f),
                    Ok(v) => Ok(values.push(v)),
                },
            },
        }
    }
}

/// The frame in which `def` starts: the parameters hold the arguments, all
/// other registers `Unit`. Surplus arguments are dropped; a parameter without
/// a register is a fault.
pub open spec fn enter(
    def: FunctionDef,
    function: u32,
    args: Seq<Value>,
    dest_reg: Option<u8>,
) -> Result<FrameView, FaultView> {
    let loaded = if args.len() < def.arity {
        args.len() as int
    } else {
        def.arity as int
    };
    if loaded > def.num_registers {
        Err(
            FaultView::Plain(
                Fault::RegisterOutOfRange { reg: def.num_registers, frame_size: def.num_registers },
            ),
        )
    } else {
        Ok(
            FrameView {
                function,
                pc: def.entry as usize,
                registers: Seq::new(
                    def.num_registers as nat,
                    |i: int|
                        if i < loaded {
                            args[i]
                        } else {
                            Value::Unit
                        },
                ),
                dest_reg,
            },
        )
    }
}

/// The entry of the function table, or the fault of a missing one.
pub open spec fn lookup(chunk: Chunk, function: u32) -> Result<FunctionDef, FaultView> {
    if function < chunk.functions@.len() {
        Ok(chunk.functions@[function as int])
    } else {
        Err(
            FaultView::Plain(
                Fault::BadFunction {
                    index: function,
                    table_size: chunk.functions@.len() as u32,
                },
            ),
        )
    }
}

/// Leave the innermost frame with `v`: hand it to the caller, or finish.
pub open spec fn leave(frames: Seq<FrameView>, v: Value) -> Outcome {
    let rest = frames.drop_last();
    match frames.last().dest_reg {
        None => stop(rest, VmResultView::Complete(v)),
        Some(dest) => match reg_write(rest, dest, v) {
            Ok(fs) => go(fs),
            Err(_) => trap_plain(
                rest,
                Fault::RegisterOutOfRange {
                    reg: dest,
                    frame_size: if rest.len() == 0 {
                        0
                    } else {
                        rest.last().registers.len() as u8
                    },
                },
            ),
        },
    }
}

/// Division that rounds toward zero, the one quotient out of range wrapping.
pub open spec fn int_div(x: i64, y: i64) -> i64 {
    match x.checked_div(y) {
        Some(q) => q,
        None => i64::MIN,
    }
}

/// The remainder that goes with [`int_div`].
pub open spec fn int_rem(x: i64, y: i64) -> i64 {
    match x.checked_rem(y) {
        Some(r) => r,
        None => 0,
    }
}

/// The result of a binary operation: a value, work for the host, or a fault.
pub enum BinOut {
    Done(Value),
    Host(FloatOp),
    Fail(FaultView),
}

pub open spec fn is_number(v: Value) -> bool {
    v is Int || v is Float
}

/// An operation on two numbers of which not both are integers; `first` is
/// inspected before `second`.
pub open spec fn on_floats(op: FloatOp, first: Value, second: Value) -> BinOut {
    if !is_number(first) {
        BinOut::Fail(mismatch("int or float", first.spec_type_label()))
    } else if !is_number(second) {
        BinOut::Fail(mismatch("int or float", second.spec_type_label()))
    } else {
        BinOut::Host(op)
    }
}

/// Integer arithmetic wraps. Other numbers are the host's. Equality is defined
/// on all values, the remainder on integers only.
pub open spec fn binop(op: Opcode, a: Value, b: Value) -> BinOut {
    match (a, b) {
        (Value::Int(x), Value::Int(y)) => match op {
            Opcode::Add => BinOut::Done(Value::Int(x.wrapping_add(y))),
            Opcode::Sub => BinOut::Done(Value::Int(x.wrapping_sub(y))),
            Opcode::Mul => BinOut::Done(Value::Int(x.wrapping_mul(y))),
            Opcode::Div => if y == 0 {
                BinOut::Fail(FaultView::Plain(Fault::DivideByZero))
            } else {
                BinOut::Done(Value::Int(int_div(x, y)))
            },
            Opcode::Mod => if y == 0 {
                BinOut::Fail(FaultView::Plain(Fault::DivideByZero))
            } else {
                BinOut::Done(Value::Int(int_rem(x, y)))
            },
            Opcode::Eq => BinOut::Done(Value::Bool(x == y)),
            Opcode::Lt => BinOut::Done(Value::Bool(x < y)),
            Opcode::Le => BinOut::Done(Value::Bool(x <= y)),
            _ => BinOut::Fail(not_arithmetic()),
        },
        _ => match op {
            Opcode::Add => on_floats(FloatOp::Add, a, b),
            Opcode::Sub => on_floats(FloatOp::Sub, a, b),
            Opcode::Mul => on_floats(FloatOp::Mul, a, b),
            Opcode::Div => on_floats(FloatOp::Div, b, a),
            Opcode::Eq => BinOut::Done(Value::Bool(value_eq(a, b))),
            Opcode::Lt => on_floats(FloatOp::Lt, a, b),
            Opcode::Le => on_floats(FloatOp::Le, a, b),
            _ => BinOut::Fail(not_arithmetic()),
        },
    }
}

pub open spec fn not_arithmetic() -> FaultView {
    FaultView::Plain(Fault::Invariant("numeric_binop called with a non-arithmetic opcode"))
}

/// `Add` to `Le` on registers `b` and `c`, into register `a`.
pub open spec fn do_binop(frames: Seq<FrameView>, op: Opcode, i: Instruction) -> Outcome {
    match reg_read(frames, i.b) {
        Err(f) => trap(frames, f),
        Ok(x) => match reg_read(frames, i.c) {
            Err(f) => trap(frames, f),
            Ok(y) => match binop(op, x, y) {
                BinOut::Done(v) => store(frames, i.a, v),
                BinOut::Host(op) => stop(
                    frames,
                    VmResultView::Float { op, lhs: x, rhs: y, dest_reg: i.a },
                ),
                BinOut::Fail(f) => trap(frames, f),
            },
        },
    }
}

pub open spec fn do_neg(frames: Seq<FrameView>, i: Instruction) -> Outcome {
    match reg_read(frames, i.b) {
        Err(f) => trap(frames, f),
        Ok(Value::Int(x)) => store(frames, i.a, Value::Int(0i64.wrapping_sub(x))),
        Ok(Value::Float(bits)) => store(frames, i.a, Value::Float(float_neg(bits))),
        Ok(other) => trap(frames, mismatch("int or float", other.spec_type_label())),
    }
}

pub open spec fn do_load_const(chunk: Chunk, frames: Seq<FrameView>, i: Instruction) -> Outcome {
    let index = i.imm as u32;
    if index < chunk.constants@.len() {
        store(frames, i.a, chunk.constants@[index as int])
    } else {
        trap_plain(
            frames,
            Fault::BadConstant { index, pool_size: chunk.constants@.len() as u32 },
        )
    }
}

/// Move the program counter by `imm`. A target outside of the code, at either
/// end, leaves the function with the next instruction.
pub open spec fn do_jump(frames: Seq<FrameView>, imm: i32) -> Outcome {
    if frames.len() == 0 {
        trap(frames, no_frame())
    } else {
        let top = frames.last();
        go(
            with_top(
                frames,
                FrameView { pc: top.pc.wrapping_add_signed(imm as isize), ..top },
            ),
        )
    }
}

pub open spec fn do_branch(frames: Seq<FrameView>, i: Instruction) -> Outcome {
    match reg_read(frames, i.a) {
        Err(f) => trap(frames, f),
        Ok(cond) => if cond.truthy() {
            go(frames)
        } else {
            do_jump(frames, i.imm)
        },
    }
}

pub open spec fn do_call(chunk: Chunk, frames: Seq<FrameView>, i: Instruction) -> Outcome {
    if frames.len() >= MAX_CALL_DEPTH {
        trap_plain(frames, Fault::CallStackOverflow { depth: frames.len() as usize })
    } else {
        match lookup(chunk, i.imm as u32) {
            Err(f) => trap(frames, f),
            Ok(def) => match gather(frames, i.a, 0, i.b as nat) {
                Err(f) => trap(frames, f),
                Ok(args) => match enter(def, i.imm as u32, args, Some(i.a)) {
                    Err(f) => trap(frames, f),
                    Ok(frame) => go(frames.push(frame)),
                },
            },
        }
    }
}

pub open spec fn do_call_native(vm: VmView, frames: Seq<FrameView>, i: Instruction) -> Outcome {
    let index = i.imm as u32;
    let bad = Fault::BadNative { index, table_size: vm.natives.len() as u32 };
    match gate_verdict(vm.gate, vm.natives.len(), index) {
        Err(NativeCallError::IndexOutOfRange(_)) => trap_plain(frames, bad),
        Err(e) => trap(frames, FaultView::NativeDenied(e.spec_text())),
        Ok(_) => match native_at(vm.natives, index as int) {
            None => trap_plain(frames, bad),
            Some(native) => match gather(frames, i.a, 0, i.b as nat) {
                Err(f) => trap(frames, f),
                Ok(args) => match message_native(native, args) {
                    Some(Ok(v)) => store(frames, i.a, v),
                    Some(Err(f)) => trap(frames, f),
                    None => stop(frames, VmResultView::Native { native, args, dest_reg: i.a }),
                },
            },
        },
    }
}

/// Stop with a result that is made from one register.
pub open spec fn do_complete(frames: Seq<FrameView>, reg: u8) -> Outcome {
    match reg_read(frames, reg) {
        Err(f) => trap(frames, f),
        Ok(v) => stop(frames, VmResultView::Complete(v)),
    }
}

pub open spec fn do_return(frames: Seq<FrameView>, reg: u8) -> Outcome {
    match reg_read(frames, reg) {
        Err(f) => trap(frames, f),
        Ok(v) => leave(frames, v),
    }
}

pub open spec fn do_spawn(frames: Seq<FrameView>, i: Instruction) -> Outcome {
    match gather(frames, i.a, 1, i.b as nat) {
        Err(f) => trap(frames, f),
        Ok(args) => stop(
            frames,
            VmResultView::Spawn {
                function: i.imm as u32,
                args,
                dest_reg: i.a,
                requested_rights: CapRights { bits: i.c & ALL_RIGHTS },
            },
        ),
    }
}

pub open spec fn do_sleep(frames: Seq<FrameView>, i: Instruction) -> Outcome {
    match reg_read(frames, i.a) {
        Err(f) => trap(frames, f),
        Ok(v) => match v.spec_as_int() {
            Some(ms) => if ms >= 0 {
                stop(frames, VmResultView::Sleep(ms as u64))
            } else {
                trap(frames, mismatch("non-negative int", v.spec_type_label()))
            },
            None => trap(frames, mismatch("non-negative int", v.spec_type_label())),
        },
    }
}

/// Milliseconds to wait: what is no non-negative integer counts as zero.
pub open spec fn patience(v: Value) -> u64 {
    match v.spec_as_int() {
        Some(ms) => if ms >= 0 {
            ms as u64
        } else {
            0
        },
        None => 0,
    }
}

/// The fault of a hop through `cap` with `message`, if there is one.
pub open spec fn hop_fault(cap: Value, message: Value) -> Option<FaultView> {
    if cap.spec_as_cap() is None {
        Some(mismatch("cap", cap.spec_type_label()))
    } else if message.spec_as_message() is None {
        Some(mismatch("message", message.spec_type_label()))
    } else {
        None
    }
}

pub open spec fn do_send(frames: Seq<FrameView>, i: Instruction) -> Outcome {
    match reg_read(frames, i.a) {
        Err(f) => trap(frames, f),
        Ok(cap) => match reg_read(frames, i.b) {
            Err(f) => trap(frames, f),
            Ok(message) => match hop_fault(cap, message) {
                Some(f) => trap(frames, f),
                None => stop(
                    frames,
                    VmResultView::Send { target_cap: cap.spec_as_cap().unwrap(), message },
                ),
            },
        },
    }
}

pub open spec fn receive(dest_reg: u8, timeout: Option<u64>, match_tag: Option<u16>) -> VmResultView {
    VmResultView::Receive { dest_reg, timeout, match_tag }
}

pub open spec fn do_receive_timeout(frames: Seq<FrameView>, i: Instruction) -> Outcome {
    match reg_read(frames, i.b) {
        Err(f) => trap(frames, f),
        Ok(v) => stop(frames, receive(i.a, Some(patience(v)), None)),
    }
}

/// A value as a message tag.
pub open spec fn tag_of(v: Value) -> Result<u16, FaultView> {
    match v.spec_as_int() {
        Some(i) => if 0 <= i <= u16::MAX {
            Ok(i as u16)
        } else {
            Err(mismatch("tag u16", "int-out-of-range"))
        },
        None => Err(mismatch("int", v.spec_type_label())),
    }
}

pub open spec fn do_receive_match(frames: Seq<FrameView>, i: Instruction) -> Outcome {
    match reg_read(frames, i.b) {
        Err(f) => trap(frames, f),
        Ok(v) => match tag_of(v) {
            Err(f) => trap(frames, f),
            Ok(tag) => stop(frames, receive(i.a, None, Some(tag))),
        },
    }
}

pub open spec fn do_receive_match_imm(frames: Seq<FrameView>, i: Instruction) -> Outcome {
    if 0 <= i.imm <= u16::MAX {
        stop(frames, receive(i.a, None, Some(i.imm as u16)))
    } else {
        trap(frames, mismatch("tag u16", "imm-out-of-range"))
    }
}

pub open spec fn ask_or_fault(
    frames: Seq<FrameView>,
    dest_reg: u8,
    cap: Value,
    request: Value,
    timeout: Option<u64>,
) -> Outcome {
    match hop_fault(cap, request) {
        Some(f) => trap(frames, f),
        None => stop(
            frames,
            VmResultView::Ask {
                dest_reg,
                target_cap: cap.spec_as_cap().unwrap(),
                request,
                timeout,
            },
        ),
    }
}

pub open spec fn do_ask(frames: Seq<FrameView>, i: Instruction) -> Outcome {
    match reg_read(frames, i.b) {
        Err(f) => trap(frames, f),
        Ok(cap) => match reg_read(frames, i.c) {
            Err(f) => trap(frames, f),
            Ok(request) => ask_or_fault(frames, i.a, cap, request, None),
        },
    }
}

/// The immediate names the register that holds the patience.
pub open spec fn do_ask_timeout(frames: Seq<FrameView>, i: Instruction) -> Outcome {
    match reg_read(frames, i.b) {
        Err(f) => trap(frames, f),
        Ok(cap) => match reg_read(frames, i.c) {
            Err(f) => trap(frames, f),
            Ok(request) => if 0 <= i.imm <= u8::MAX {
                match reg_read(frames, i.imm as u8) {
                    Err(f) => trap(frames, f),
                    Ok(ms) => ask_or_fault(frames, i.a, cap, request, Some(patience(ms))),
                }
            } else {
                trap(frames, mismatch("millis register", "imm-out-of-range"))
            },
        },
    }
}

/// The capability in a register.
pub open spec fn read_cap(frames: Seq<FrameView>, reg: u8) -> Result<u64, FaultView> {
    match reg_read(frames, reg) {
        Err(f) => Err(f),
        Ok(v) => match v.spec_as_cap() {
            Some(c) => Ok(c),
            None => Err(mismatch("cap", v.spec_type_label())),
        },
    }
}

pub open spec fn do_monitor(frames: Seq<FrameView>, i: Instruction) -> Outcome {
    match read_cap(frames, i.b) {
        Err(f) => trap(frames, f),
        Ok(target_cap) => stop(frames, VmResultView::Monitor { dest_reg: i.a, target_cap }),
    }
}

pub open spec fn do_link(frames: Seq<FrameView>, i: Instruction) -> Outcome {
    match read_cap(frames, i.b) {
        Err(f) => trap(frames, f),
        Ok(target_cap) => stop(frames, VmResultView::Link { dest_reg: i.a, target_cap }),
    }
}

/// Register 255 stands for no native mask.
pub open spec fn do_delegate(frames: Seq<FrameView>, i: Instruction) -> Outcome {
    match read_cap(frames, i.b) {
        Err(f) => trap(frames, f),
        Ok(src_cap) => {
            let want_rights = CapRights::from_bits_spec(i.imm as u32);
            if i.c == 255 {
                stop(
                    frames,
                    VmResultView::Delegate {
                        dest_reg: i.a,
                        src_cap,
                        want_rights,
                        want_native_cap: None,
                    },
                )
            } else {
                match read_cap(frames, i.c) {
                    Err(f) => trap(frames, f),
                    Ok(c) => stop(
                        frames,
                        VmResultView::Delegate {
                            dest_reg: i.a,
                            src_cap,
                            want_rights,
                            want_native_cap: Some(c),
                        },
                    ),
                }
            }
        },
    }
}

/// One instruction, the program counter already past it.
pub open spec fn execute(vm: VmView, frames: Seq<FrameView>, i: Instruction) -> Outcome {
    match i.op {
        Op::Core(op) => match op {
            Opcode::Halt => do_complete(frames, 0),
            Opcode::Nop => go(frames),
            Opcode::LoadConst => do_load_const(vm.chunk, frames, i),
            Opcode::LoadImm => store(frames, i.a, Value::Int(i.imm as i64)),
            Opcode::Move => match reg_read(frames, i.b) {
                Err(f) => trap(frames, f),
                Ok(v) => store(frames, i.a, v),
            },
            Opcode::Add | Opcode::Sub | Opcode::Mul | Opcode::Div | Opcode::Mod | Opcode::Eq
            | Opcode::Lt | Opcode::Le => do_binop(frames, op, i),
            Opcode::Neg => do_neg(frames, i),
            Opcode::Jump => do_jump(frames, i.imm),
            Opcode::Branch => do_branch(frames, i),
            Opcode::Call => do_call(vm.chunk, frames, i),
            Opcode::CallNative => do_call_native(vm, frames, i),
            Opcode::Return => do_return(frames, i.a),
            Opcode::Spawn => do_spawn(frames, i),
            Opcode::Yield => stop(frames, VmResultView::Yield),
            Opcode::Sleep => do_sleep(frames, i),
            Opcode::Exit => do_complete(frames, i.a),
            Opcode::SelfPid => stop(frames, VmResultView::SelfPid { dest_reg: i.a }),
            Opcode::Send => do_send(frames, i),
            Opcode::Receive => stop(frames, receive(i.a, None, None)),
            Opcode::ReceiveTimeout => do_receive_timeout(frames, i),
            Opcode::Trap => trap_plain(frames, Fault::Explicit(i.imm)),
        },
        Op::Ext(op) => match op {
            ExtOpcode::ReceiveMatch => do_receive_match(frames, i),
            ExtOpcode::ReceiveMatchImm => do_receive_match_imm(frames, i),
            ExtOpcode::Ask => do_ask(frames, i),
            ExtOpcode::AskTimeout => do_ask_timeout(frames, i),
            ExtOpcode::Monitor => do_monitor(frames, i),
            ExtOpcode::Demonitor => stop(frames, VmResultView::Demonitor { monitor_reg: i.a }),
            ExtOpcode::Link => do_link(frames, i),
            ExtOpcode::Unlink => stop(frames, VmResultView::Unlink { link_reg: i.a }),
            ExtOpcode::Delegate => do_delegate(frames, i),
        },
    }
}

/// Fetch and execute. Running off the end of the code returns `Unit`.
pub open spec fn step(vm: VmView) -> Outcome {
    if vm.frames.len() == 0 {
        trap(vm.frames, no_frame())
    } else {
        let top = vm.frames.last();
        if top.pc < vm.chunk.code@.len() {
            execute(
                vm,
                with_top(vm.frames, FrameView { pc: (top.pc + 1) as usize, ..top }),
                vm.chunk.code@[top.pc as int],
            )
        } else {
            leave(vm.frames, Value::Unit)
        }
    }
}

/// The state after one step.
pub open spec fn after(vm: VmView, o: Outcome) -> VmView {
    VmView { frames: o.frames, executed: vm.executed.wrapping_add(1), ..vm }
}

/// Up to `budget` steps, ending where a step stops the run.
pub open spec fn run(vm: VmView, budget: nat) -> (VmView, VmResultView)
    decreases budget,
{
    if budget == 0 {
        (vm, VmResultView::Yield)
    } else {
        let o = step(vm);
        match o.stop {
            Some(r) => (after(vm, o), r),
            None => run(after(vm, o), (budget - 1) as nat),
        }
    }
}

/// How many steps such a run takes.
pub open spec fn steps(vm: VmView, budget: nat) -> nat
    decreases budget,
{
    if budget == 0 {
        0
    } else {
        let o = step(vm);
        match o.stop {
            Some(_) => 1,
            None => 1 + steps(after(vm, o), (budget - 1) as nat),
        }
    }
}

} // verus!
