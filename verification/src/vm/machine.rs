//! The interpreter loop.

use std::sync::Arc;

use vstd::prelude::*;

use super::fault::{result_view, Fault, FaultView};
use super::frame::{Frame, FrameView};
use super::native::{
    check_native_gate, NativeCallError, NativeFn, NativeGate, NativeResult, NativeTable,
};
use super::result::{opt_result_view, FloatOp, VmResult, VmResultView};
use super::semantics::{
    after, binop, do_ask, do_ask_timeout, do_binop, do_branch, do_call, do_call_native,
    do_complete, do_delegate, do_jump, do_link, do_load_const, do_monitor, do_neg,
    do_receive_match, do_receive_match_imm, do_receive_timeout, do_return, do_send, do_sleep,
    do_spawn, enter, execute, gather, hop_fault, leave, lookup, on_floats, patience, reg_read,
    reg_write, read_cap, reg_index, run, step, steps, store, tag_of, with_top, BinOut, Outcome,
    VmView,
};
use crate::bytecode::cap::CapRights;
use crate::bytecode::chunk::{Chunk, FunctionDef};
use crate::bytecode::instruction::Instruction;
use crate::bytecode::opcode::{ExtOpcode, Op, Opcode};
use crate::bytecode::value::{float_neg_bits, Value};

verus! {

/// Most frames that a call stack can have.
pub const MAX_CALL_DEPTH: usize = 4096;

/// The execution state of one flow.
#[derive(Debug)]
pub struct Vm {
    chunk: Arc<Chunk>,
    natives: Arc<NativeTable>,
    native_gate: NativeGate,
    frames: Vec<Frame>,
    instructions_executed: u64,
}

pub open spec fn frames_view(frames: Seq<Frame>) -> Seq<FrameView> {
    frames.map_values(|f: Frame| f@)
}

impl View for Vm {
    type V = VmView;

    closed spec fn view(&self) -> VmView {
        VmView {
            chunk: *self.chunk,
            natives: self.natives@,
            gate: self.native_gate@,
            frames: frames_view(self.frames@),
            executed: self.instructions_executed,
        }
    }
}

/// An instruction took the state from `pre` to `post` and, with `r`, to where
/// `o` says.
pub open spec fn ran(pre: VmView, post: VmView, r: Option<VmResult>, o: Outcome) -> bool {
    &&& post == VmView { frames: o.frames, ..pre }
    &&& opt_result_view(r) == o.stop
}

/// The register `offset` after `base`.
fn reg_at(base: u8, offset: u16) -> (r: Result<u8, Fault>)
    ensures
        result_view(r) == reg_index(base, offset as nat),
{
    let sum: u32 = base as u32 + offset as u32;
    if sum <= 255 {
        Ok(sum as u8)
    } else {
        let offset: u8 = if offset <= 255 {
            offset as u8
        } else {
            255
        };
        Err(Fault::RegisterIndexOverflow { base, offset })
    }
}

/// A value as a message tag.
fn tag_from_value(v: &Value) -> (r: Result<u16, Fault>)
    ensures
        result_view(r) == tag_of(*v),
{
    match v.as_int() {
        Some(i) => {
            if 0 <= i && i <= 0xFFFF {
                Ok(i as u16)
            } else {
                Err(Fault::TypeMismatch { expected: "tag u16", got: "int-out-of-range" })
            }
        },
        None => Err(Fault::TypeMismatch { expected: "int", got: v.type_label() }),
    }
}

fn patience_of(v: &Value) -> (ms: u64)
    ensures
        ms == patience(*v),
{
    match v.as_int() {
        Some(n) => {
            if n >= 0 {
                n as u64
            } else {
                0
            }
        },
        None => 0,
    }
}

/// The result of a binary operation.
enum Computed {
    Done(Value),
    Host(FloatOp),
    Fail(Fault),
}

spec fn computed_view(c: Computed) -> BinOut {
    match c {
        Computed::Done(v) => BinOut::Done(v),
        Computed::Host(op) => BinOut::Host(op),
        Computed::Fail(f) => BinOut::Fail(f@),
    }
}

fn floats(op: FloatOp, first: &Value, second: &Value) -> (c: Computed)
    ensures
        computed_view(c) == on_floats(op, *first, *second),
{
    match first {
        Value::Int(_) | Value::Float(_) => {},
        other => {
            return Computed::Fail(
                Fault::TypeMismatch { expected: "int or float", got: other.type_label() },
            );
        },
    }
    match second {
        Value::Int(_) | Value::Float(_) => Computed::Host(op),
        other => Computed::Fail(
            Fault::TypeMismatch { expected: "int or float", got: other.type_label() },
        ),
    }
}

fn ints(op: Opcode, x: i64, y: i64) -> (c: Computed)
    ensures
        computed_view(c) == binop(op, Value::Int(x), Value::Int(y)),
{
    match op {
        Opcode::Add => Computed::Done(Value::Int(x.wrapping_add(y))),
        Opcode::Sub => Computed::Done(Value::Int(x.wrapping_sub(y))),
        Opcode::Mul => Computed::Done(Value::Int(x.wrapping_mul(y))),
        Opcode::Div => {
            if y == 0 {
                return Computed::Fail(Fault::DivideByZero);
            }
            match x.checked_div(y) {
                Some(q) => Computed::Done(Value::Int(q)),
                None => Computed::Done(Value::Int(i64::MIN)),
            }
        },
        Opcode::Mod => {
            if y == 0 {
                return Computed::Fail(Fault::DivideByZero);
            }
            match x.checked_rem(y) {
                Some(r) => Computed::Done(Value::Int(r)),
                None => Computed::Done(Value::Int(0)),
            }
        },
        Opcode::Eq => Computed::Done(Value::Bool(x == y)),
        Opcode::Lt => Computed::Done(Value::Bool(x < y)),
        Opcode::Le => Computed::Done(Value::Bool(x <= y)),
        _ => Computed::Fail(
            Fault::Invariant("numeric_binop called with a non-arithmetic opcode"),
        ),
    }
}

fn compute(op: Opcode, a: &Value, b: &Value) -> (c: Computed)
    ensures
        computed_view(c) == binop(op, *a, *b),
{
    match (a, b) {
        (Value::Int(x), Value::Int(y)) => ints(op, *x, *y),
        _ => match op {
            Opcode::Add => floats(FloatOp::Add, a, b),
            Opcode::Sub => floats(FloatOp::Sub, a, b),
            Opcode::Mul => floats(FloatOp::Mul, a, b),
            Opcode::Div => floats(FloatOp::Div, b, a),
            Opcode::Eq => Computed::Done(Value::Bool(*a == *b)),
            Opcode::Lt => floats(FloatOp::Lt, a, b),
            Opcode::Le => floats(FloatOp::Le, a, b),
            _ => Computed::Fail(
                Fault::Invariant("numeric_binop called with a non-arithmetic opcode"),
            ),
        },
    }
}

/// The frame in which `def` starts.
fn entry_frame(def: &FunctionDef, function: u32, args: &[Value], dest_reg: Option<u8>) -> (r: Result<
    Frame,
    Fault,
>)
    ensures
        match r {
            Ok(f) => enter(*def, function, args@, dest_reg) == Ok::<_, FaultView>(f@),
            Err(e) => enter(*def, function, args@, dest_reg) == Err::<FrameView, _>(e@),
        },
{
    let mut frame = Frame::new(function, def.num_registers, dest_reg);
    frame.pc = def.entry as usize;
    let ghost loaded = if args@.len() < def.arity {
        args@.len() as int
    } else {
        def.arity as int
    };
    let mut i: usize = 0;
    while i < args.len() && i < def.arity as usize
        invariant
            i <= loaded,
            i <= def.num_registers,
            loaded == (if args@.len() < def.arity {
                args@.len() as int
            } else {
                def.arity as int
            }),
            frame.function == function,
            frame.pc == def.entry as usize,
            frame.dest_reg == dest_reg,
            frame.registers@ =~= Seq::new(
                def.num_registers as nat,
                |j: int|
                    if j < i {
                        args@[j]
                    } else {
                        Value::Unit
                    },
            ),
        decreases loaded - i,
    {
        if i >= frame.registers.len() {
            return Err(
                Fault::RegisterOutOfRange { reg: i as u8, frame_size: def.num_registers },
            );
        }
        frame.registers.set(i, args[i].clone());
        i = i + 1;
    }
    assert(frame.registers@ =~= enter(*def, function, args@, dest_reg)->Ok_0.registers);
    Ok(frame)
}

impl Vm {
    /// A VM about to run `function` with `args` in its parameters. All native
    /// calls are denied.
    pub fn new(
        chunk: Arc<Chunk>,
        natives: Arc<NativeTable>,
        function: u32,
        args: &[Value],
    ) -> (r: Result<Vm, Fault>)
        ensures
            started(
                r,
                *chunk,
                natives@,
                Seq::new(natives@.len(), |i: int| false),
                function,
                args@,
            ),
    {
        let gate = NativeGate::deny(natives.len());
        Vm::with_native_gate(chunk, natives, gate, function, args)
    }

    /// A VM about to run `function`, which may call the natives that the native gate
    /// lets through.
    pub fn with_native_gate(
        chunk: Arc<Chunk>,
        natives: Arc<NativeTable>,
        native_gate: NativeGate,
        function: u32,
        args: &[Value],
    ) -> (r: Result<Vm, Fault>)
        ensures
            started(r, *chunk, natives@, native_gate@, function, args@),
    {
        let frame = match chunk.function(function) {
            Some(def) => match entry_frame(def, function, args, None) {
                Ok(f) => f,
                Err(e) => return Err(e),
            },
            None => {
                return Err(
                    Fault::BadFunction {
                        index: function,
                        table_size: chunk.functions.len() as u32,
                    },
                );
            },
        };
        let mut frames: Vec<Frame> = Vec::new();
        frames.push(frame);
        let vm = Vm { chunk, natives, native_gate, frames, instructions_executed: 0 };
        assert(vm@.frames =~= seq![frame@]);
        Ok(vm)
    }

    fn read_reg(&self, reg: u8) -> (r: Result<Value, Fault>)
        ensures
            result_view(r) == reg_read(self@.frames, reg),
    {
        let n: usize = self.frames.len();
        if n == 0 {
            return Err(Fault::Invariant("empty frame stack while running"));
        }
        let top = &self.frames[n - 1];
        assert(self@.frames.last() == top@);
        let i: usize = reg as usize;
        if i < top.registers.len() {
            Ok(top.registers[i].clone())
        } else {
            Err(Fault::RegisterOutOfRange { reg, frame_size: top.registers.len() as u8 })
        }
    }

    fn write_reg(&mut self, reg: u8, value: Value) -> (r: Result<(), Fault>)
        ensures
            match reg_write(old(self)@.frames, reg, value) {
                Ok(fs) => r is Ok && final(self)@ == (VmView { frames: fs, ..old(self)@ }),
                Err(f) => r matches Err(e) && e@ == f && final(self)@ == old(self)@,
            },
    {
        let n: usize = self.frames.len();
        if n == 0 {
            return Err(Fault::Invariant("empty frame stack while running"));
        }
        assert(self@.frames.last() == self.frames@[n - 1]@);
        let size: usize = self.frames[n - 1].registers.len();
        let i: usize = reg as usize;
        if i < size {
            self.frames[n - 1].registers.set(i, value);
            proof {
                let fs = reg_write(old(self)@.frames, reg, value)->Ok_0;
                assert(self@.frames =~= fs);
            }
            Ok(())
        } else {
            Err(Fault::RegisterOutOfRange { reg, frame_size: size as u8 })
        }
    }

    fn store(&mut self, reg: u8, value: Value) -> (r: Option<VmResult>)
        ensures
            ran(old(self)@, final(self)@, r, store(old(self)@.frames, reg, value)),
    {
        match self.write_reg(reg, value) {
            Ok(_) => None,
            Err(f) => Some(VmResult::Trap(f)),
        }
    }

    /// The registers `base + first` to `base + first + n - 1`.
    fn gather(&self, base: u8, first: u16, n: u8) -> (r: Result<Vec<Value>, Fault>)
        requires
            first <= 1,
        ensures
            match r {
                Ok(v) => gather(self@.frames, base, first as nat, n as nat) == Ok::<_, FaultView>(
                    v@,
                ),
                Err(f) => gather(self@.frames, base, first as nat, n as nat) == Err::<
                    Seq<Value>,
                    _,
                >(f@),
            },
    {
        let mut out: Vec<Value> = Vec::new();
        let mut i: u8 = 0;
        while i < n
            invariant
                i <= n,
                first <= 1,
                gather(self@.frames, base, first as nat, i as nat) == Ok::<_, FaultView>(out@),
            decreases n - i,
        {
            let ghost prefix = out@;
            let failed = match reg_at(base, first + i as u16) {
                Err(f) => Some(f),
                Ok(reg) => match self.read_reg(reg) {
                    Err(f) => Some(f),
                    Ok(v) => {
                        out.push(v);
                        None
                    },
                },
            };
            i = i + 1;
            match failed {
                Some(f) => {
                    proof {
                        gather_fault_stays(
                            self@.frames,
                            base,
                            first as nat,
                            i as nat,
                            n as nat,
                            f@,
                        );
                    }
                    return Err(f);
                },
                None => {},
            }
        }
        Ok(out)
    }

    /// Leave the innermost frame with `value`.
    fn pop_frame(&mut self, value: Value) -> (r: Option<VmResult>)
        requires
            old(self)@.frames.len() > 0,
        ensures
            ran(old(self)@, final(self)@, r, leave(old(self)@.frames, value)),
    {
        assert(self@.frames.last() == self.frames@.last()@);
        let finished = self.frames.pop();
        assert(self@.frames =~= old(self)@.frames.drop_last());
        match finished {
            None => None,
            Some(frame) => match frame.dest_reg {
                None => Some(VmResult::Complete(value)),
                Some(dest) => match self.write_reg(dest, value) {
                    Ok(_) => None,
                    Err(_) => {
                        let n: usize = self.frames.len();
                        let frame_size: u8 = if n == 0 {
                            0
                        } else {
                            assert(self@.frames.last() == self.frames@.last()@);
                            self.frames[n - 1].registers.len() as u8
                        };
                        Some(
                            VmResult::Trap(Fault::RegisterOutOfRange { reg: dest, frame_size }),
                        )
                    },
                },
            },
        }
    }

    fn numeric_binop(&mut self, op: Opcode, i: Instruction) -> (r: Option<VmResult>)
        ensures
            ran(old(self)@, final(self)@, r, do_binop(old(self)@.frames, op, i)),
    {
        let x = match self.read_reg(i.b) {
            Ok(v) => v,
            Err(f) => return Some(VmResult::Trap(f)),
        };
        let y = match self.read_reg(i.c) {
            Ok(v) => v,
            Err(f) => return Some(VmResult::Trap(f)),
        };
        match compute(op, &x, &y) {
            Computed::Done(v) => self.store(i.a, v),
            Computed::Host(op) => Some(VmResult::Float { op, lhs: x, rhs: y, dest_reg: i.a }),
            Computed::Fail(f) => Some(VmResult::Trap(f)),
        }
    }

    fn exec_neg(&mut self, i: Instruction) -> (r: Option<VmResult>)
        ensures
            ran(old(self)@, final(self)@, r, do_neg(old(self)@.frames, i)),
    {
        match self.read_reg(i.b) {
            Err(f) => Some(VmResult::Trap(f)),
            Ok(Value::Int(x)) => self.store(i.a, Value::Int(0i64.wrapping_sub(x))),
            Ok(Value::Float(bits)) => self.store(i.a, Value::Float(float_neg_bits(bits))),
            Ok(other) => Some(
                VmResult::Trap(
                    Fault::TypeMismatch { expected: "int or float", got: other.type_label() },
                ),
            ),
        }
    }

    fn exec_load_const(&mut self, i: Instruction) -> (r: Option<VmResult>)
        ensures
            ran(
                old(self)@,
                final(self)@,
                r,
                do_load_const(old(self)@.chunk, old(self)@.frames, i),
            ),
    {
        let index: u32 = i.imm as u32;
        let constant = match self.chunk.constant(index) {
            Some(v) => v.clone(),
            None => {
                return Some(
                    VmResult::Trap(
                        Fault::BadConstant {
                            index,
                            pool_size: self.chunk.constants.len() as u32,
                        },
                    ),
                );
            },
        };
        self.store(i.a, constant)
    }

    fn exec_jump(&mut self, imm: i32) -> (r: Option<VmResult>)
        ensures
            ran(old(self)@, final(self)@, r, do_jump(old(self)@.frames, imm)),
    {
        let n: usize = self.frames.len();
        if n == 0 {
            return Some(VmResult::Trap(Fault::Invariant("empty frame stack while running")));
        }
        assert(self@.frames.last() == self.frames@[n - 1]@);
        let pc: usize = self.frames[n - 1].pc;
        self.frames[n - 1].pc = pc.wrapping_add_signed(imm as isize);
        assert(self@.frames =~= do_jump(old(self)@.frames, imm).frames);
        None
    }

    fn exec_branch(&mut self, i: Instruction) -> (r: Option<VmResult>)
        ensures
            ran(old(self)@, final(self)@, r, do_branch(old(self)@.frames, i)),
    {
        match self.read_reg(i.a) {
            Err(f) => Some(VmResult::Trap(f)),
            Ok(cond) => {
                if cond.is_truthy() {
                    None
                } else {
                    self.exec_jump(i.imm)
                }
            },
        }
    }

    fn exec_call(&mut self, i: Instruction) -> (r: Option<VmResult>)
        ensures
            ran(old(self)@, final(self)@, r, do_call(old(self)@.chunk, old(self)@.frames, i)),
    {
        let function: u32 = i.imm as u32;
        if self.frames.len() >= MAX_CALL_DEPTH {
            return Some(
                VmResult::Trap(Fault::CallStackOverflow { depth: self.frames.len() }),
            );
        }
        let frame = match self.chunk.function(function) {
            Some(def) => match self.gather(i.a, 0, i.b) {
                Ok(args) => match entry_frame(def, function, args.as_slice(), Some(i.a)) {
                    Ok(frame) => frame,
                    Err(f) => return Some(VmResult::Trap(f)),
                },
                Err(f) => return Some(VmResult::Trap(f)),
            },
            None => {
                return Some(
                    VmResult::Trap(
                        Fault::BadFunction {
                            index: function,
                            table_size: self.chunk.functions.len() as u32,
                        },
                    ),
                );
            },
        };
        self.frames.push(frame);
        assert(self@.frames =~= old(self)@.frames.push(frame@));
        None
    }

    fn exec_call_native(&mut self, i: Instruction) -> (r: Option<VmResult>)
        ensures
            ran(old(self)@, final(self)@, r, do_call_native(old(self)@, old(self)@.frames, i)),
    {
        let index: u32 = i.imm as u32;
        match check_native_gate(&self.native_gate, &self.natives, index) {
            Ok(_) => {},
            Err(NativeCallError::IndexOutOfRange(_)) => {
                return Some(
                    VmResult::Trap(
                        Fault::BadNative { index, table_size: self.natives.len() as u32 },
                    ),
                );
            },
            Err(e) => return Some(VmResult::Trap(Fault::NativeDenied(e.to_text()))),
        }
        let native = match self.natives.get(index) {
            Some(f) => f,
            None => {
                return Some(
                    VmResult::Trap(
                        Fault::BadNative { index, table_size: self.natives.len() as u32 },
                    ),
                );
            },
        };
        let args = match self.gather(i.a, 0, i.b) {
            Ok(args) => args,
            Err(f) => return Some(VmResult::Trap(f)),
        };
        match native.call(args.as_slice()) {
            Some(Ok(v)) => self.store(i.a, v),
            Some(Err(f)) => Some(VmResult::Trap(f)),
            None => Some(VmResult::Native { native, args, dest_reg: i.a }),
        }
    }

    fn exec_complete(&self, reg: u8) -> (r: Option<VmResult>)
        ensures
            ran(self@, self@, r, do_complete(self@.frames, reg)),
    {
        match self.read_reg(reg) {
            Err(f) => Some(VmResult::Trap(f)),
            Ok(v) => Some(VmResult::Complete(v)),
        }
    }

    fn exec_return(&mut self, reg: u8) -> (r: Option<VmResult>)
        ensures
            ran(old(self)@, final(self)@, r, do_return(old(self)@.frames, reg)),
    {
        match self.read_reg(reg) {
            Err(f) => Some(VmResult::Trap(f)),
            Ok(v) => self.pop_frame(v),
        }
    }

    fn exec_spawn(&self, i: Instruction) -> (r: Option<VmResult>)
        ensures
            ran(self@, self@, r, do_spawn(self@.frames, i)),
    {
        match self.gather(i.a, 1, i.b) {
            Err(f) => Some(VmResult::Trap(f)),
            Ok(args) => Some(
                VmResult::Spawn {
                    function: i.imm as u32,
                    args,
                    dest_reg: i.a,
                    requested_rights: CapRights::from_u8(i.c),
                },
            ),
        }
    }

    fn exec_sleep(&self, i: Instruction) -> (r: Option<VmResult>)
        ensures
            ran(self@, self@, r, do_sleep(self@.frames, i)),
    {
        match self.read_reg(i.a) {
            Err(f) => Some(VmResult::Trap(f)),
            Ok(v) => {
                match v.as_int() {
                    Some(ms) => {
                        if ms >= 0 {
                            return Some(VmResult::Sleep(ms as u64));
                        }
                    },
                    None => {},
                }
                Some(
                    VmResult::Trap(
                        Fault::TypeMismatch { expected: "non-negative int", got: v.type_label() },
                    ),
                )
            },
        }
    }

    fn exec_send(&self, i: Instruction) -> (r: Option<VmResult>)
        ensures
            ran(self@, self@, r, do_send(self@.frames, i)),
    {
        let cap = match self.read_reg(i.a) {
            Ok(v) => v,
            Err(f) => return Some(VmResult::Trap(f)),
        };
        let message = match self.read_reg(i.b) {
            Ok(v) => v,
            Err(f) => return Some(VmResult::Trap(f)),
        };
        match hop_target(&cap, &message) {
            Ok(target_cap) => Some(VmResult::Send { target_cap, message }),
            Err(f) => Some(VmResult::Trap(f)),
        }
    }

    fn exec_receive_timeout(&self, i: Instruction) -> (r: Option<VmResult>)
        ensures
            ran(self@, self@, r, do_receive_timeout(self@.frames, i)),
    {
        match self.read_reg(i.b) {
            Err(f) => Some(VmResult::Trap(f)),
            Ok(v) => Some(
                VmResult::Receive {
                    dest_reg: i.a,
                    timeout: Some(patience_of(&v)),
                    match_tag: None,
                },
            ),
        }
    }

    fn exec_receive_match(&self, i: Instruction) -> (r: Option<VmResult>)
        ensures
            ran(self@, self@, r, do_receive_match(self@.frames, i)),
    {
        match self.read_reg(i.b) {
            Err(f) => Some(VmResult::Trap(f)),
            Ok(v) => match tag_from_value(&v) {
                Err(f) => Some(VmResult::Trap(f)),
                Ok(tag) => Some(
                    VmResult::Receive { dest_reg: i.a, timeout: None, match_tag: Some(tag) },
                ),
            },
        }
    }

    fn exec_receive_match_imm(&self, i: Instruction) -> (r: Option<VmResult>)
        ensures
            ran(self@, self@, r, do_receive_match_imm(self@.frames, i)),
    {
        if 0 <= i.imm && i.imm <= 0xFFFF {
            Some(
                VmResult::Receive { dest_reg: i.a, timeout: None, match_tag: Some(i.imm as u16) },
            )
        } else {
            Some(
                VmResult::Trap(
                    Fault::TypeMismatch { expected: "tag u16", got: "imm-out-of-range" },
                ),
            )
        }
    }

    fn exec_ask(&self, i: Instruction) -> (r: Option<VmResult>)
        ensures
            ran(self@, self@, r, do_ask(self@.frames, i)),
    {
        let cap = match self.read_reg(i.b) {
            Ok(v) => v,
            Err(f) => return Some(VmResult::Trap(f)),
        };
        let request = match self.read_reg(i.c) {
            Ok(v) => v,
            Err(f) => return Some(VmResult::Trap(f)),
        };
        match hop_target(&cap, &request) {
            Ok(target_cap) => Some(
                VmResult::Ask { dest_reg: i.a, target_cap, request, timeout: None },
            ),
            Err(f) => Some(VmResult::Trap(f)),
        }
    }

    fn exec_ask_timeout(&self, i: Instruction) -> (r: Option<VmResult>)
        ensures
            ran(self@, self@, r, do_ask_timeout(self@.frames, i)),
    {
        let cap = match self.read_reg(i.b) {
            Ok(v) => v,
            Err(f) => return Some(VmResult::Trap(f)),
        };
        let request = match self.read_reg(i.c) {
            Ok(v) => v,
            Err(f) => return Some(VmResult::Trap(f)),
        };
        if i.imm < 0 || i.imm > 255 {
            return Some(
                VmResult::Trap(
                    Fault::TypeMismatch { expected: "millis register", got: "imm-out-of-range" },
                ),
            );
        }
        let ms: u64 = match self.read_reg(i.imm as u8) {
            Ok(v) => patience_of(&v),
            Err(f) => return Some(VmResult::Trap(f)),
        };
        match hop_target(&cap, &request) {
            Ok(target_cap) => Some(
                VmResult::Ask { dest_reg: i.a, target_cap, request, timeout: Some(ms) },
            ),
            Err(f) => Some(VmResult::Trap(f)),
        }
    }

    fn reg_cap(&self, reg: u8) -> (r: Result<u64, Fault>)
        ensures
            result_view(r) == read_cap(self@.frames, reg),
    {
        match self.read_reg(reg) {
            Err(f) => Err(f),
            Ok(v) => match v.as_cap() {
                Some(c) => Ok(c),
                None => Err(Fault::TypeMismatch { expected: "cap", got: v.type_label() }),
            },
        }
    }

    fn exec_monitor(&self, i: Instruction) -> (r: Option<VmResult>)
        ensures
            ran(self@, self@, r, do_monitor(self@.frames, i)),
    {
        match self.reg_cap(i.b) {
            Err(f) => Some(VmResult::Trap(f)),
            Ok(target_cap) => Some(VmResult::Monitor { dest_reg: i.a, target_cap }),
        }
    }

    fn exec_link(&self, i: Instruction) -> (r: Option<VmResult>)
        ensures
            ran(self@, self@, r, do_link(self@.frames, i)),
    {
        match self.reg_cap(i.b) {
            Err(f) => Some(VmResult::Trap(f)),
            Ok(target_cap) => Some(VmResult::Link { dest_reg: i.a, target_cap }),
        }
    }

    fn exec_delegate(&self, i: Instruction) -> (r: Option<VmResult>)
        ensures
            ran(self@, self@, r, do_delegate(self@.frames, i)),
    {
        let src_cap: u64 = match self.reg_cap(i.b) {
            Ok(c) => c,
            Err(f) => return Some(VmResult::Trap(f)),
        };
        let want_native_cap = if i.c == 255 {
            None
        } else {
            match self.reg_cap(i.c) {
                Ok(c) => Some(c),
                Err(f) => return Some(VmResult::Trap(f)),
            }
        };
        Some(
            VmResult::Delegate {
                dest_reg: i.a,
                src_cap,
                want_rights: CapRights::from_bits(i.imm as u32),
                want_native_cap,
            },
        )
    }

    fn exec_core(&mut self, op: Opcode, i: Instruction) -> (r: Option<VmResult>)
        requires
            i.op == Op::Core(op),
        ensures
            ran(old(self)@, final(self)@, r, execute(old(self)@, old(self)@.frames, i)),
    {
        match op {
            Opcode::Halt => self.exec_complete(0),
            Opcode::Nop => None,
            Opcode::LoadConst => self.exec_load_const(i),
            Opcode::LoadImm => self.store(i.a, Value::Int(i.imm as i64)),
            Opcode::Move => match self.read_reg(i.b) {
                Err(f) => Some(VmResult::Trap(f)),
                Ok(v) => self.store(i.a, v),
            },
            Opcode::Add | Opcode::Sub | Opcode::Mul | Opcode::Div | Opcode::Mod | Opcode::Eq
            | Opcode::Lt | Opcode::Le => self.numeric_binop(op, i),
            Opcode::Neg => self.exec_neg(i),
            Opcode::Jump => self.exec_jump(i.imm),
            Opcode::Branch => self.exec_branch(i),
            Opcode::Call => self.exec_call(i),
            Opcode::CallNative => self.exec_call_native(i),
            Opcode::Return => self.exec_return(i.a),
            Opcode::Spawn => self.exec_spawn(i),
            Opcode::Yield => Some(VmResult::Yield),
            Opcode::Sleep => self.exec_sleep(i),
            Opcode::Exit => self.exec_complete(i.a),
            Opcode::SelfPid => Some(VmResult::SelfPid { dest_reg: i.a }),
            Opcode::Send => self.exec_send(i),
            Opcode::Receive => Some(
                VmResult::Receive { dest_reg: i.a, timeout: None, match_tag: None },
            ),
            Opcode::ReceiveTimeout => self.exec_receive_timeout(i),
            Opcode::Trap => Some(VmResult::Trap(Fault::Explicit(i.imm))),
        }
    }

    fn exec_ext(&self, op: ExtOpcode, i: Instruction) -> (r: Option<VmResult>)
        requires
            i.op == Op::Ext(op),
        ensures
            ran(self@, self@, r, execute(self@, self@.frames, i)),
    {
        match op {
            ExtOpcode::ReceiveMatch => self.exec_receive_match(i),
            ExtOpcode::ReceiveMatchImm => self.exec_receive_match_imm(i),
            ExtOpcode::Ask => self.exec_ask(i),
            ExtOpcode::AskTimeout => self.exec_ask_timeout(i),
            ExtOpcode::Monitor => self.exec_monitor(i),
            ExtOpcode::Demonitor => Some(VmResult::Demonitor { monitor_reg: i.a }),
            ExtOpcode::Link => self.exec_link(i),
            ExtOpcode::Unlink => Some(VmResult::Unlink { link_reg: i.a }),
            ExtOpcode::Delegate => self.exec_delegate(i),
        }
    }

    /// Fetch the next instruction and advance the program counter; `None` at
    /// the end of the code.
    fn fetch(&mut self) -> (r: Option<Instruction>)
        requires
            old(self)@.frames.len() > 0,
        ensures
            ({
                let top = old(self)@.frames.last();
                if top.pc < old(self)@.chunk.code@.len() {
                    &&& r == Some(old(self)@.chunk.code@[top.pc as int])
                    &&& final(self)@ == (VmView {
                        frames: with_top(
                            old(self)@.frames,
                            FrameView { pc: (top.pc + 1) as usize, ..top },
                        ),
                        ..old(self)@
                    })
                } else {
                    r is None && final(self)@ == old(self)@
                }
            }),
    {
        let n: usize = self.frames.len();
        assert(self@.frames.last() == self.frames@[n - 1]@);
        let pc: usize = self.frames[n - 1].pc;
        if pc < self.chunk.code.len() {
            let i: Instruction = self.chunk.code[pc];
            self.frames[n - 1].pc = pc + 1;
            proof {
                let top = old(self)@.frames.last();
                assert(self@.frames =~= with_top(
                    old(self)@.frames,
                    FrameView { pc: (top.pc + 1) as usize, ..top },
                ));
            }
            Some(i)
        } else {
            None
        }
    }

    /// One step.
    fn step(&mut self) -> (r: Option<VmResult>)
        ensures
            final(self)@ == after(old(self)@, step(old(self)@)),
            opt_result_view(r) == step(old(self)@).stop,
    {
        self.instructions_executed = self.instructions_executed.wrapping_add(1);
        if self.frames.len() == 0 {
            return Some(VmResult::Trap(Fault::Invariant("empty frame stack while running")));
        }
        match self.fetch() {
            None => self.pop_frame(Value::Unit),
            Some(i) => match i.op {
                Op::Core(op) => self.exec_core(op, i),
                Op::Ext(op) => self.exec_ext(op, i),
            },
        }
    }

    /// A run, and how many instructions it took.
    fn run_counted(&mut self, budget: u32) -> (r: (VmResult, u32))
        ensures
            final(self)@ == run(old(self)@, budget as nat).0,
            r.0@ == run(old(self)@, budget as nat).1,
            r.1 == steps(old(self)@, budget as nat),
    {
        let mut used: u32 = 0;
        while used < budget
            invariant
                used <= budget,
                run(self@, (budget - used) as nat) == run(old(self)@, budget as nat),
                used + steps(self@, (budget - used) as nat) == steps(old(self)@, budget as nat),
            decreases budget - used,
        {
            let stopped = self.step();
            used = used + 1;
            match stopped {
                Some(r) => return (r, used),
                None => {},
            }
        }
        (VmResult::Yield, used)
    }

    /// Run at most `budget` instructions, or until the flow is done, faults,
    /// or needs the scheduler or the host.
    pub fn run(&mut self, budget: u32) -> (r: VmResult)
        ensures
            final(self)@ == run(old(self)@, budget as nat).0,
            r@ == run(old(self)@, budget as nat).1,
    {
        self.run_counted(budget).0
    }

    pub fn instructions_executed(&self) -> (n: u64)
        ensures
            n == self@.executed,
    {
        self.instructions_executed
    }

    /// The function of the innermost frame; 0 when there is none.
    pub fn current_function(&self) -> (f: u32)
        ensures
            f == (if self@.frames.len() == 0 {
                0
            } else {
                self@.frames.last().function
            }),
    {
        let n: usize = self.frames.len();
        if n == 0 {
            0
        } else {
            assert(self@.frames.last() == self.frames@[n - 1]@);
            self.frames[n - 1].function
        }
    }

    /// The module, to share with a child.
    pub fn chunk_arc(&self) -> (c: Arc<Chunk>)
        ensures
            *c == self@.chunk,
    {
        self.chunk.clone()
    }

    /// The native table, to share with a child.
    pub fn natives_arc(&self) -> (t: Arc<NativeTable>)
        ensures
            t@ == self@.natives,
    {
        self.natives.clone()
    }

    /// The native gate, to hand on to a child.
    pub fn native_gate(&self) -> (g: NativeGate)
        ensures
            g@ == self@.gate,
    {
        self.native_gate.duplicate()
    }

    /// Deliver what the last run stopped for into the register that it named.
    pub fn resume_with(&mut self, dest_reg: u8, value: Value) -> (r: Result<(), Fault>)
        ensures
            resumed(old(self)@, final(self)@, r, dest_reg, value),
    {
        self.write_reg(dest_reg, value)
    }

    pub fn set_register(&mut self, reg: u8, value: Value) -> (r: Result<(), Fault>)
        ensures
            resumed(old(self)@, final(self)@, r, reg, value),
    {
        self.write_reg(reg, value)
    }

    pub fn current_pc(&self) -> (r: Option<usize>)
        ensures
            r == (if self@.frames.len() == 0 {
                None
            } else {
                Some(self@.frames.last().pc)
            }),
    {
        let n: usize = self.frames.len();
        if n == 0 {
            None
        } else {
            assert(self@.frames.last() == self.frames@[n - 1]@);
            Some(self.frames[n - 1].pc)
        }
    }

    pub fn current_num_registers(&self) -> (r: Option<u8>)
        ensures
            r == (if self@.frames.len() == 0 {
                None
            } else {
                Some(self@.frames.last().registers.len() as u8)
            }),
    {
        let n: usize = self.frames.len();
        if n == 0 {
            None
        } else {
            assert(self@.frames.last() == self.frames@[n - 1]@);
            Some(self.frames[n - 1].registers.len() as u8)
        }
    }

    /// The registers of the innermost frame.
    pub fn top_registers(&self) -> (r: Option<&[Value]>)
        ensures
            r is None <==> self@.frames.len() == 0,
            r matches Some(regs) ==> regs@ == self@.frames.last().registers,
    {
        let n: usize = self.frames.len();
        if n == 0 {
            None
        } else {
            assert(self@.frames.last() == self.frames@[n - 1]@);
            Some(self.frames[n - 1].registers.as_slice())
        }
    }

    /// The registers of the innermost frame, to write to.
    pub fn top_registers_mut(&mut self) -> (r: Option<&mut [Value]>)
        ensures
            r is None <==> old(self)@.frames.len() == 0,
            r is None ==> final(self)@ == old(self)@,
            r matches Some(regs) ==> {
                let top = old(self)@.frames.last();
                &&& regs@ == top.registers
                &&& final(self)@ == (VmView {
                    frames: with_top(
                        old(self)@.frames,
                        FrameView { registers: (*final(regs))@, ..top },
                    ),
                    ..old(self)@
                })
            },
    {
        let n: usize = self.frames.len();
        if n == 0 {
            None
        } else {
            assert(self@.frames.last() == self.frames@[n - 1]@);
            let regs = self.frames[n - 1].registers.as_mut_slice();
            proof {
                let top = old(self)@.frames.last();
                assert(after_borrow(self)@.frames =~= with_top(
                    old(self)@.frames,
                    FrameView { registers: (*final(regs))@, ..top },
                ));
            }
            Some(regs)
        }
    }

    pub fn set_pc(&mut self, pc: usize)
        ensures
            final(self)@ == (if old(self)@.frames.len() == 0 {
                old(self)@
            } else {
                VmView {
                    frames: with_top(
                        old(self)@.frames,
                        FrameView { pc, ..old(self)@.frames.last() },
                    ),
                    ..old(self)@
                }
            }),
    {
        let n: usize = self.frames.len();
        if n > 0 {
            assert(self@.frames.last() == self.frames@[n - 1]@);
            self.frames[n - 1].pc = pc;
            assert(self@.frames =~= with_top(
                old(self)@.frames,
                FrameView { pc, ..old(self)@.frames.last() },
            ));
        }
    }

    /// Return `value` from the innermost frame.
    pub fn return_value(&mut self, value: Value) -> (r: Result<Option<VmResult>, Fault>)
        ensures
            old(self)@.frames.len() == 0 ==> (r matches Err(f) && f@ == FaultView::Plain(
                Fault::Invariant("pop_frame on empty stack"),
            )) && final(self)@ == old(self)@,
            old(self)@.frames.len() > 0 ==> (r matches Ok(stop) && ran(
                old(self)@,
                final(self)@,
                stop,
                leave(old(self)@.frames, value),
            )),
    {
        if self.frames.len() == 0 {
            return Err(Fault::Invariant("pop_frame on empty stack"));
        }
        Ok(self.pop_frame(value))
    }

    /// Have the host answer what a run stopped for, if that is for the host.
    fn serve<N, F>(&mut self, result: VmResult, native: &N, float: &F) -> (r: Option<VmResult>)
        where
            N: core::ops::Fn(NativeFn, &[Value]) -> NativeResult,
            F: core::ops::Fn(FloatOp, &Value, &Value) -> Value,
        requires
            forall|f: NativeFn, args: &[Value]| #[trigger] call_requires(*native, (f, args)),
            forall|op: FloatOp, x: &Value, y: &Value| #[trigger]
                call_requires(*float, (op, x, y)),
        ensures
            served(old(self)@, result@, *native, *float, final(self)@, opt_result_view(r)),
    {
        match result {
            VmResult::Native { native: f, args, dest_reg } => {
                let answer = native(f, args.as_slice());
                match answer {
                    Err(e) => Some(VmResult::Trap(e)),
                    Ok(v) => match self.write_reg(dest_reg, v) {
                        Err(e) => Some(VmResult::Trap(e)),
                        Ok(_) => None,
                    },
                }
            },
            VmResult::Float { op, lhs, rhs, dest_reg } => {
                let v = float(op, &lhs, &rhs);
                match self.write_reg(dest_reg, v) {
                    Err(e) => Some(VmResult::Trap(e)),
                    Ok(_) => None,
                }
            },
            other => Some(other),
        }
    }

    /// Run like [`Self::run`], letting the host answer native calls and
    /// floating-point operations on the way. The budget covers the whole run.
    pub fn run_hosted<N, F>(&mut self, budget: u32, native: &N, float: &F) -> (r: VmResult)
        where
            N: core::ops::Fn(NativeFn, &[Value]) -> NativeResult,
            F: core::ops::Fn(FloatOp, &Value, &Value) -> Value,
        requires
            forall|f: NativeFn, args: &[Value]| #[trigger] call_requires(*native, (f, args)),
            forall|op: FloatOp, x: &Value, y: &Value| #[trigger]
                call_requires(*float, (op, x, y)),
        ensures
            hosted(old(self)@, budget as nat, *native, *float, final(self)@, r@),
    {
        let mut left: u32 = budget;
        loop
            invariant
                left <= budget,
                forall|f: NativeFn, args: &[Value]| #[trigger] call_requires(*native, (f, args)),
                forall|op: FloatOp, x: &Value, y: &Value| #[trigger]
                    call_requires(*float, (op, x, y)),
                forall|post: VmView, r: VmResultView|
                    #[trigger] hosted(self@, left as nat, *native, *float, post, r) ==> hosted(
                        old(self)@,
                        budget as nat,
                        *native,
                        *float,
                        post,
                        r,
                    ),
            decreases left,
        {
            let ghost pre = self@;
            let (result, used) = self.run_counted(left);
            proof {
                steps_bounded(pre, left as nat);
            }
            if left == 0 {
                assert(hosted(pre, 0, *native, *float, self@, result@));
                return result;
            }
            let ghost mid = self@;
            let ghost asked = result@;
            let reply = self.serve(result, native, float);
            let ghost then = opt_result_view(reply);
            assert(served(mid, asked, *native, *float, self@, then));
            match reply {
                Some(r) => {
                    assert(hosted(pre, left as nat, *native, *float, self@, r@));
                    return r;
                },
                None => {},
            }
            let ghost whole = left as nat;
            left = left - used;
            proof {
                let now = self@;
                assert forall|post: VmView, r: VmResultView| #[trigger]
                    hosted(now, left as nat, *native, *float, post, r) implies hosted(
                    old(self)@,
                    budget as nat,
                    *native,
                    *float,
                    post,
                    r,
                ) by {
                    assert(hosted(pre, whole, *native, *float, post, r));
                }
            }
        }
    }
}

/// Once a register of the run is at fault, no longer run changes that.
proof fn gather_fault_stays(
    frames: Seq<FrameView>,
    base: u8,
    first: nat,
    m: nat,
    n: nat,
    f: FaultView,
)
    requires
        m <= n,
        gather(frames, base, first, m) == Err::<Seq<Value>, _>(f),
    ensures
        gather(frames, base, first, n) == Err::<Seq<Value>, _>(f),
    decreases n,
{
    if m < n {
        gather_fault_stays(frames, base, first, m, (n - 1) as nat, f);
    }
}

/// The capability that a hop with `message` goes through.
fn hop_target(cap: &Value, message: &Value) -> (r: Result<u64, Fault>)
    ensures
        match r {
            Ok(c) => hop_fault(*cap, *message) is None && cap.spec_as_cap() == Some(c),
            Err(f) => hop_fault(*cap, *message) == Some(f@),
        },
{
    match cap.as_cap() {
        None => Err(Fault::TypeMismatch { expected: "cap", got: cap.type_label() }),
        Some(c) => match message.as_message() {
            None => Err(Fault::TypeMismatch { expected: "message", got: message.type_label() }),
            Some(_) => Ok(c),
        },
    }
}

/// A value was delivered into a register, or the fault why not.
pub open spec fn resumed(
    pre: VmView,
    post: VmView,
    r: Result<(), Fault>,
    reg: u8,
    value: Value,
) -> bool {
    match reg_write(pre.frames, reg, value) {
        Ok(fs) => r is Ok && post == VmView { frames: fs, ..pre },
        Err(f) => r matches Err(e) && e@ == f && post == pre,
    }
}

/// The host's part after a run that ended in `asked`: its answer goes to the
/// register that asked for it and the run goes on, or the run ends in `then`.
/// A native call that fails, or an answer without a register to go to, ends
/// it in the fault; what is not for the host ends it as it is.
pub open spec fn served<N, F>(
    mid: VmView,
    asked: VmResultView,
    native: N,
    float: F,
    post: VmView,
    then: Option<VmResultView>,
) -> bool where
    N: core::ops::Fn(NativeFn, &[Value]) -> NativeResult,
    F: core::ops::Fn(FloatOp, &Value, &Value) -> Value,
 {
    let delivered = |reg: u8, v: Value|
        match reg_write(mid.frames, reg, v) {
            Ok(fs) => post == VmView { frames: fs, ..mid } && then is None,
            Err(f) => post == mid && then == Some(VmResultView::Trap(f)),
        };
    match asked {
        VmResultView::Native { native: f, args, dest_reg } => exists|
            given: &[Value],
            answer: NativeResult,
        |
            {
                &&& given@ == args
                &&& #[trigger] call_ensures(native, (f, given), answer)
                &&& match answer {
                    Err(e) => post == mid && then == Some(VmResultView::Trap(e@)),
                    Ok(v) => delivered(dest_reg, v),
                }
            },
        VmResultView::Float { op, lhs, rhs, dest_reg } => exists|v: Value|
            {
                &&& #[trigger] call_ensures(float, (op, &lhs, &rhs), v)
                &&& delivered(dest_reg, v)
            },
        other => post == mid && then == Some(other),
    }
}

/// A run of at most `budget` instructions in which the host answers native
/// calls and floating-point operations: it goes from `vm` to `post` and ends
/// in `r`.
pub open spec fn hosted<N, F>(
    vm: VmView,
    budget: nat,
    native: N,
    float: F,
    post: VmView,
    r: VmResultView,
) -> bool where
    N: core::ops::Fn(NativeFn, &[Value]) -> NativeResult,
    F: core::ops::Fn(FloatOp, &Value, &Value) -> Value,

    decreases budget,
{
    let mid = run(vm, budget).0;
    let asked = run(vm, budget).1;
    let used = steps(vm, budget);
    if budget == 0 || used == 0 || used > budget {
        post == mid && r == asked
    } else {
        exists|next: VmView, then: Option<VmResultView>|
            {
                &&& #[trigger] served(mid, asked, native, float, next, then)
                &&& match then {
                    Some(end) => post == next && r == end,
                    None => hosted(next, (budget - used) as nat, native, float, post, r),
                }
            }
    }
}

/// A run never takes more steps than its budget, and takes one unless the
/// budget is zero; the counter advances by exactly the steps taken.
pub proof fn steps_bounded(vm: VmView, budget: nat)
    ensures
        steps(vm, budget) <= budget,
        budget > 0 ==> steps(vm, budget) > 0,
        run(vm, budget).0.executed == (vm.executed + steps(vm, budget)) % 0x1_0000_0000_0000_0000,
    decreases budget,
{
    if budget > 0 {
        let o = step(vm);
        if o.stop is None {
            steps_bounded(after(vm, o), (budget - 1) as nat);
        }
    }
}

/// What constructing a VM gives: one frame in which `function` starts, or the
/// fault of an unknown function or of a parameter without a register.
pub open spec fn started(
    r: Result<Vm, Fault>,
    chunk: Chunk,
    natives: Seq<Option<(Seq<char>, NativeFn)>>,
    gate: Seq<bool>,
    function: u32,
    args: Seq<Value>,
) -> bool {
    match lookup(chunk, function) {
        Err(f) => r matches Err(e) && e@ == f,
        Ok(def) => match enter(def, function, args, None) {
            Err(f) => r matches Err(e) && e@ == f,
            Ok(frame) => r matches Ok(vm) && vm@ == (VmView {
                chunk,
                natives,
                gate,
                frames: seq![frame],
                executed: 0,
            }),
        },
    }
}

} // verus!
