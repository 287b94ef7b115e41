//! Assembly of modules with named registers.
//!
//! [`Program`] collects functions; [`Fn`] emits one function and hands out
//! its registers.

use vstd::prelude::*;
use vstd::std_specs::convert::FromSpecImpl;

use super::builder::{
    const_index, empty_builder, finished, is_binop, with_const, BuilderView, ChunkBuilder, Label,
};
use super::chunk::Chunk;
use super::instruction::{ext_instr, instr, Instruction};
use super::opcode::{ExtOpcode, Opcode};
use super::value::Value;

verus! {

/// Index of a function in the module.
pub type FuncId = u32;

/// A register of the function that is being emitted.
#[derive(Clone, Copy, Debug, PartialEq, Eq, Hash, Structural)]
pub struct Reg(u8);

impl Reg {
    pub closed spec fn no(self) -> u8 {
        self.0
    }

    /// The register's index in the frame.
    pub fn index(self) -> (i: u8)
        ensures
            i == self.no(),
    {
        self.0
    }
}

impl From<Reg> for u8 {
    fn from(r: Reg) -> (i: u8) {
        r.0
    }
}

impl FromSpecImpl<Reg> for u8 {
    open spec fn obeys_from_spec() -> bool {
        true
    }

    open spec fn from_spec(r: Reg) -> u8 {
        r.no()
    }
}

/// The sum, or the largest index there is.
pub open spec fn reg_sum(base: u8, i: u8) -> u8 {
    if base + i <= u8::MAX {
        (base + i) as u8
    } else {
        u8::MAX
    }
}

/// Consecutive registers.
#[derive(Clone, Copy, Debug)]
pub struct RegWindow {
    base: Reg,
    len: u8,
}

impl RegWindow {
    pub closed spec fn first(self) -> u8 {
        self.base.0
    }

    pub closed spec fn width(self) -> u8 {
        self.len
    }

    pub fn base(self) -> (r: Reg)
        ensures
            r.no() == self.first(),
    {
        self.base
    }

    /// The register at offset `i` of the window.
    pub fn at(self, i: u8) -> (r: Reg)
        requires
            i < self.width(),
        ensures
            r.no() == reg_sum(self.first(), i),
    {
        Reg(self.base.0.saturating_add(i))
    }
}

/// The emission of one function: the assembly so far, the function, and the
/// registers that are taken.
#[verifier::ext_equal]
pub struct FnView {
    pub b: BuilderView,
    pub function: FuncId,
    pub next_reg: u8,
    pub scratch: Option<u8>,
}

impl FnView {
    /// There are `n` more registers to be had.
    pub open spec fn has_room(self, n: nat) -> bool {
        self.next_reg + n <= u8::MAX
    }

    /// The scratch register is there, or there is room for it.
    pub open spec fn has_temp_room(self) -> bool {
        self.scratch is Some || self.has_room(1)
    }

    /// The function is in the table, and its frame has its parameters and all
    /// registers that are taken.
    pub open spec fn framed(self) -> bool {
        &&& self.function < self.b.functions.len()
        &&& self.b.functions[self.function as int].num_registers == self.next_reg
        &&& self.b.functions[self.function as int].arity <= self.next_reg
        &&& self.scratch matches Some(r) ==> r < self.next_reg
    }

    /// With one more register, which is the one at `next_reg` before.
    pub open spec fn grown(self) -> FnView {
        let next_reg = (self.next_reg + 1) as u8;
        FnView { b: self.b.resized(self.function, next_reg), next_reg, ..self }
    }

    /// With `n` more registers.
    pub open spec fn grown_by(self, n: nat) -> FnView
        decreases n,
    {
        if n == 0 {
            self
        } else {
            self.grown_by((n - 1) as nat).grown()
        }
    }

    pub open spec fn emitted(self, i: Instruction) -> FnView {
        FnView { b: self.b.emitted(i), ..self }
    }

    pub open spec fn jumped(self, i: Instruction, label: u32) -> FnView {
        FnView { b: self.b.jumped(i, label), ..self }
    }

    pub open spec fn bound(self, label: u32) -> FnView {
        FnView { b: self.b.bound(label), ..self }
    }

    /// With a label more, whose id is the one at `next_label` before.
    pub open spec fn labelled(self) -> FnView {
        FnView {
            b: BuilderView { next_label: (self.b.next_label + 1) as u32, ..self.b },
            ..self
        }
    }

    /// The scratch register: taken once, then used again.
    pub open spec fn temp_reg(self) -> u8 {
        match self.scratch {
            Some(r) => r,
            None => self.next_reg,
        }
    }

    pub open spec fn with_temp(self) -> FnView {
        match self.scratch {
            Some(_) => self,
            None => FnView { scratch: Some(self.next_reg), ..self.grown() },
        }
    }

    /// With a new register that an instruction writes first.
    pub open spec fn defined(self, i: Instruction) -> FnView {
        self.grown().emitted(i)
    }

    /// With the call of a native function on a copy of a register.
    pub open spec fn native1(self, dst: u8, src: u8, native: u32) -> FnView {
        self.emitted(instr(Opcode::Move, dst, src, 0, 0)).emitted(
            instr(Opcode::CallNative, dst, 1, 0, native as i32),
        )
    }
}

/// Emits one function.
pub struct Fn {
    b: ChunkBuilder,
    function: FuncId,
    next_reg: u8,
    scratch: Option<Reg>,
}

impl View for Fn {
    type V = FnView;

    closed spec fn view(&self) -> FnView {
        FnView {
            b: self.b@,
            function: self.function,
            next_reg: self.next_reg,
            scratch: match self.scratch {
                Some(r) => Some(r.no()),
                None => None,
            },
        }
    }
}

/// The state at the start of a function with an explicit frame size.
pub open spec fn fn_opened(b: BuilderView, name: Seq<char>, arity: u8, num_registers: u8) -> FnView {
    FnView {
        b: b.opened(name, arity, num_registers),
        function: b.functions.len() as u32,
        next_reg: num_registers,
        scratch: None,
    }
}

/// The frame size that a function starts with: its parameters, but at least
/// four registers.
pub open spec fn initial_frame(arity: u8) -> u8 {
    if arity < 4 {
        4
    } else {
        arity
    }
}

/// One module.
pub struct Program {
    inner: ChunkBuilder,
}

impl View for Program {
    type V = BuilderView;

    closed spec fn view(&self) -> BuilderView {
        self.inner@
    }
}

impl Program {
    pub fn new(name: &str) -> (p: Program)
        ensures
            p@ == empty_builder(name@),
    {
        Program { inner: ChunkBuilder::new(name) }
    }

    /// Start a function; [`Self::end`] takes it back.
    pub fn begin(self, name: &str, arity: u8) -> (f: Fn)
        ensures
            f@ == fn_opened(self@, name@, arity, initial_frame(arity)),
    {
        let frame: u8 = if arity < 4 {
            4
        } else {
            arity
        };
        Fn::open_with(self.inner, name, arity, frame)
    }

    /// The module with the function that was emitted.
    pub fn end(f: Fn) -> (p: Program)
        ensures
            p@ == f@.b,
    {
        Program { inner: f.b }
    }

    fn define<F: FnOnce(&mut Fn)>(&mut self, name: &str, arity: u8, frame: u8, body: F) -> (id: FuncId)
        requires
            forall|f: &mut Fn|
                (*f)@ == fn_opened(old(self)@, name@, arity, frame) ==> #[trigger] call_requires(
                    body,
                    (f,),
                ),
        ensures
            id == old(self)@.functions.len() as u32,
            exists|f: &mut Fn|
                {
                    &&& (*f)@ == fn_opened(old(self)@, name@, arity, frame)
                    &&& final(self)@ == (*final(f))@.b
                    &&& #[trigger] call_ensures(body, (f,), ())
                },
    {
        let mut inner = ChunkBuilder::new("");
        std::mem::swap(&mut inner, &mut self.inner);
        let mut f = Fn::open_with(inner, name, arity, frame);
        let id: FuncId = f.function;
        body(&mut f);
        self.inner = f.b;
        id
    }

    /// Define a function; `body` emits it.
    pub fn function<F: FnOnce(&mut Fn)>(&mut self, name: &str, arity: u8, body: F) -> (id: FuncId)
        requires
            forall|f: &mut Fn|
                (*f)@ == fn_opened(old(self)@, name@, arity, initial_frame(arity)) ==> #[trigger]
                call_requires(body, (f,)),
        ensures
            id == old(self)@.functions.len() as u32,
            exists|f: &mut Fn|
                {
                    &&& (*f)@ == fn_opened(old(self)@, name@, arity, initial_frame(arity))
                    &&& final(self)@ == (*final(f))@.b
                    &&& #[trigger] call_ensures(body, (f,), ())
                },
    {
        let frame: u8 = if arity < 4 {
            4
        } else {
            arity
        };
        self.define(name, arity, frame, body)
    }

    /// Define a function with an explicit frame size, which may even be too
    /// small for its parameters.
    pub fn function_raw<F: FnOnce(&mut Fn)>(
        &mut self,
        name: &str,
        arity: u8,
        num_registers: u8,
        body: F,
    ) -> (id: FuncId)
        requires
            forall|f: &mut Fn|
                (*f)@ == fn_opened(old(self)@, name@, arity, num_registers) ==> #[trigger]
                call_requires(body, (f,)),
        ensures
            id == old(self)@.functions.len() as u32,
            exists|f: &mut Fn|
                {
                    &&& (*f)@ == fn_opened(old(self)@, name@, arity, num_registers)
                    &&& final(self)@ == (*final(f))@.b
                    &&& #[trigger] call_ensures(body, (f,), ())
                },
    {
        self.define(name, arity, num_registers, body)
    }

    /// The latest function of this name.
    pub fn function_index(&self, name: &str) -> (r: Option<FuncId>)
        ensures
            r == (if self@.names.dom().contains(name@) {
                Some(self@.names[name@])
            } else {
                None
            }),
    {
        self.inner.function_index(name)
    }

    /// Whether every label that a jump uses is bound.
    pub fn is_complete(&self) -> (r: bool)
        ensures
            r == self@.complete(),
    {
        self.inner.is_complete()
    }

    /// The finished module.
    pub fn build(self) -> (chunk: Chunk)
        requires
            self@.complete(),
        ensures
            finished(self@, chunk),
    {
        self.inner.finish()
    }
}

impl Fn {
    fn open_with(b: ChunkBuilder, name: &str, arity: u8, num_registers: u8) -> (f: Fn)
        ensures
            f@ == fn_opened(b@, name@, arity, num_registers),
    {
        let mut b = b;
        let function: FuncId = b.begin_function(name, arity, num_registers);
        Fn { b, function, next_reg: num_registers, scratch: None }
    }

    /// The index of the function that is being emitted.
    pub fn id(&self) -> (id: FuncId)
        ensures
            id == self@.function,
    {
        self.function
    }

    /// A fresh register: none of the parameters, and none that was handed out
    /// before.
    pub fn local(&mut self) -> (r: Reg)
        requires
            old(self)@.has_room(1),
        ensures
            r.no() == old(self)@.next_reg,
            final(self)@ == old(self)@.grown(),
    {
        let reg = Reg(self.next_reg);
        self.next_reg = self.next_reg.saturating_add(1);
        self.b.set_num_registers(self.function, self.next_reg);
        reg
    }

    /// The register of this index, whether the frame has it or not.
    pub fn reg(&mut self, index: u8) -> (r: Reg)
        ensures
            r.no() == index,
            final(self)@ == old(self)@,
    {
        Reg(index)
    }

    /// Make the frame at least `count` registers wide.
    pub fn reserve(&mut self, count: u8)
        ensures
            final(self)@ == (if count > old(self)@.next_reg {
                FnView {
                    b: old(self)@.b.resized(old(self)@.function, count),
                    next_reg: count,
                    ..old(self)@
                }
            } else {
                old(self)@
            }),
    {
        if count > self.next_reg {
            self.next_reg = count;
            self.b.set_num_registers(self.function, self.next_reg);
        }
    }

    /// `count` fresh registers in a row.
    pub fn window(&mut self, count: u8) -> (w: RegWindow)
        requires
            old(self)@.has_room(count as nat),
        ensures
            w.first() == old(self)@.next_reg,
            w.width() == count,
            final(self)@ == old(self)@.grown_by(count as nat),
    {
        let base = Reg(self.next_reg);
        let mut i: u8 = 0;
        while i < count
            invariant
                i <= count,
                old(self)@.has_room(count as nat),
                self@ == old(self)@.grown_by(i as nat),
                self@.next_reg == old(self)@.next_reg + i,
            decreases count - i,
        {
            let _ = self.local();
            i = i + 1;
        }
        RegWindow { base, len: count }
    }

    /// A fresh register that holds `n`.
    pub fn load_i32(&mut self, n: i32) -> (r: Reg)
        requires
            old(self)@.has_room(1),
        ensures
            r.no() == old(self)@.next_reg,
            final(self)@ == old(self)@.defined(
                instr(Opcode::LoadImm, old(self)@.next_reg, 0, 0, n),
            ),
    {
        let reg = self.local();
        self.b.emit_load_imm(reg.0, n);
        reg
    }

    /// A fresh register that holds `n`, by way of the constant pool.
    pub fn load_int(&mut self, n: i64) -> (r: Reg)
        requires
            old(self)@.has_room(1),
        ensures
            r.no() == old(self)@.next_reg,
            final(self)@ == (FnView {
                b: BuilderView {
                    constants: with_const(old(self)@.b.constants, Value::Int(n)),
                    ..old(self)@.b
                },
                ..old(self)@
            }).defined(
                instr(
                    Opcode::LoadConst,
                    old(self)@.next_reg,
                    0,
                    0,
                    (const_index(old(self)@.b.constants, Value::Int(n), 0) as u32) as i32,
                ),
            ),
    {
        let konst: u32 = self.b.const_(Value::Int(n));
        let reg = self.local();
        self.b.emit_load_const(reg.0, konst);
        reg
    }

    /// Set a register to `imm`.
    pub fn set(&mut self, reg: Reg, imm: i32)
        ensures
            final(self)@ == old(self)@.emitted(instr(Opcode::LoadImm, reg.no(), 0, 0, imm)),
    {
        self.b.emit_load_imm(reg.0, imm);
    }

    /// Copy a register.
    pub fn mov(&mut self, dst: Reg, src: Reg)
        ensures
            final(self)@ == old(self)@.emitted(instr(Opcode::Move, dst.no(), src.no(), 0, 0)),
    {
        self.b.emit_move(dst.0, src.0);
    }

    fn binop(&mut self, op: Opcode, lhs: Reg, rhs: Reg) -> (r: Reg)
        requires
            is_binop(op),
            old(self)@.has_room(1),
        ensures
            r.no() == old(self)@.next_reg,
            final(self)@ == old(self)@.defined(
                instr(op, old(self)@.next_reg, lhs.no(), rhs.no(), 0),
            ),
    {
        let dst = self.local();
        self.b.emit_binop(op, dst.0, lhs.0, rhs.0);
        dst
    }

    fn temp(&mut self) -> (r: Reg)
        requires
            old(self)@.has_temp_room(),
        ensures
            r.no() == old(self)@.temp_reg(),
            final(self)@ == old(self)@.with_temp(),
    {
        match self.scratch {
            Some(r) => r,
            None => {
                let r = self.local();
                self.scratch = Some(r);
                r
            },
        }
    }

    /// Add `imm` to a register, in place.
    pub fn add_imm(&mut self, dst: Reg, imm: i32)
        requires
            old(self)@.has_temp_room(),
        ensures
            final(self)@ == old(self)@.with_temp().emitted(
                instr(Opcode::LoadImm, old(self)@.temp_reg(), 0, 0, imm),
            ).emitted(instr(Opcode::Add, dst.no(), dst.no(), old(self)@.temp_reg(), 0)),
    {
        let tmp = self.temp();
        self.b.emit_load_imm(tmp.0, imm);
        self.b.emit_binop(Opcode::Add, dst.0, dst.0, tmp.0);
    }

    /// Compare with `imm` for equality.
    pub fn eq_imm(&mut self, lhs: Reg, imm: i32) -> (r: Reg)
        requires
            old(self)@.has_temp_room(),
            old(self)@.with_temp().has_room(1),
        ensures
            r.no() == old(self)@.with_temp().next_reg,
            final(self)@ == old(self)@.with_temp().emitted(
                instr(Opcode::LoadImm, old(self)@.temp_reg(), 0, 0, imm),
            ).defined(
                instr(
                    Opcode::Eq,
                    old(self)@.with_temp().next_reg,
                    lhs.no(),
                    old(self)@.temp_reg(),
                    0,
                ),
            ),
    {
        let rhs = self.temp();
        self.b.emit_load_imm(rhs.0, imm);
        self.binop(Opcode::Eq, lhs, rhs)
    }

    pub fn neg(&mut self, src: Reg) -> (r: Reg)
        requires
            old(self)@.has_room(1),
        ensures
            r.no() == old(self)@.next_reg,
            final(self)@ == old(self)@.defined(
                instr(Opcode::Neg, old(self)@.next_reg, src.no(), 0, 0),
            ),
    {
        let dst = self.local();
        self.b.emit_neg(dst.0, src.0);
        dst
    }

    /// The sum, in a fresh register.
    pub fn add(&mut self, lhs: Reg, rhs: Reg) -> (r: Reg)
        requires
            old(self)@.has_room(1),
        ensures
            r.no() == old(self)@.next_reg,
            final(self)@ == old(self)@.defined(
                instr(Opcode::Add, old(self)@.next_reg, lhs.no(), rhs.no(), 0),
            ),
    {
        self.binop(Opcode::Add, lhs, rhs)
    }

    pub fn sub(&mut self, lhs: Reg, rhs: Reg) -> (r: Reg)
        requires
            old(self)@.has_room(1),
        ensures
            r.no() == old(self)@.next_reg,
            final(self)@ == old(self)@.defined(
                instr(Opcode::Sub, old(self)@.next_reg, lhs.no(), rhs.no(), 0),
            ),
    {
        self.binop(Opcode::Sub, lhs, rhs)
    }

    pub fn mul(&mut self, lhs: Reg, rhs: Reg) -> (r: Reg)
        requires
            old(self)@.has_room(1),
        ensures
            r.no() == old(self)@.next_reg,
            final(self)@ == old(self)@.defined(
                instr(Opcode::Mul, old(self)@.next_reg, lhs.no(), rhs.no(), 0),
            ),
    {
        self.binop(Opcode::Mul, lhs, rhs)
    }

    pub fn div(&mut self, lhs: Reg, rhs: Reg) -> (r: Reg)
        requires
            old(self)@.has_room(1),
        ensures
            r.no() == old(self)@.next_reg,
            final(self)@ == old(self)@.defined(
                instr(Opcode::Div, old(self)@.next_reg, lhs.no(), rhs.no(), 0),
            ),
    {
        self.binop(Opcode::Div, lhs, rhs)
    }

    pub fn modulo(&mut self, lhs: Reg, rhs: Reg) -> (r: Reg)
        requires
            old(self)@.has_room(1),
        ensures
            r.no() == old(self)@.next_reg,
            final(self)@ == old(self)@.defined(
                instr(Opcode::Mod, old(self)@.next_reg, lhs.no(), rhs.no(), 0),
            ),
    {
        self.binop(Opcode::Mod, lhs, rhs)
    }

    pub fn eq(&mut self, lhs: Reg, rhs: Reg) -> (r: Reg)
        requires
            old(self)@.has_room(1),
        ensures
            r.no() == old(self)@.next_reg,
            final(self)@ == old(self)@.defined(
                instr(Opcode::Eq, old(self)@.next_reg, lhs.no(), rhs.no(), 0),
            ),
    {
        self.binop(Opcode::Eq, lhs, rhs)
    }

    pub fn lt(&mut self, lhs: Reg, rhs: Reg) -> (r: Reg)
        requires
            old(self)@.has_room(1),
        ensures
            r.no() == old(self)@.next_reg,
            final(self)@ == old(self)@.defined(
                instr(Opcode::Lt, old(self)@.next_reg, lhs.no(), rhs.no(), 0),
            ),
    {
        self.binop(Opcode::Lt, lhs, rhs)
    }

    pub fn le(&mut self, lhs: Reg, rhs: Reg) -> (r: Reg)
        requires
            old(self)@.has_room(1),
        ensures
            r.no() == old(self)@.next_reg,
            final(self)@ == old(self)@.defined(
                instr(Opcode::Le, old(self)@.next_reg, lhs.no(), rhs.no(), 0),
            ),
    {
        self.binop(Opcode::Le, lhs, rhs)
    }

    /// Repeat what `body` emits while `counter` is less than `limit`.
    pub fn while_lt<F: FnOnce(&mut Fn)>(&mut self, counter: Reg, limit: Reg, body: F)
        requires
            old(self)@.b.next_label < u32::MAX - 1,
            forall|f: &mut Fn|
                (*f)@ == loop_head(old(self)@, counter.no(), limit.no()) ==> #[trigger]
                call_requires(body, (f,)),
            old(self)@.has_room(1),
        ensures
            exists|f: &mut Fn|
                {
                    &&& (*f)@ == loop_head(old(self)@, counter.no(), limit.no())
                    &&& #[trigger] call_ensures(body, (f,), ())
                    &&& final(self)@ == loop_tail((*final(f))@, old(self)@.b.next_label)
                },
    {
        let head = self.b.new_label();
        let done = self.b.new_label();
        let cond = self.local();
        self.b.bind_label(head);
        self.b.emit_binop(Opcode::Lt, cond.0, counter.0, limit.0);
        self.b.emit_branch(cond.0, done);
        body(self);
        self.b.emit_jump(head);
        self.b.bind_label(done);
    }

    /// A fresh label.
    pub fn label(&mut self) -> (l: Label)
        requires
            old(self)@.b.next_label < u32::MAX,
        ensures
            l.id() == old(self)@.b.next_label,
            final(self)@ == old(self)@.labelled(),
    {
        self.b.new_label()
    }

    /// Bind a label to the next instruction.
    pub fn bind(&mut self, label: Label)
        ensures
            final(self)@ == old(self)@.bound(label.id()),
    {
        self.b.bind_label(label);
    }

    pub fn jump(&mut self, label: Label)
        ensures
            final(self)@ == old(self)@.jumped(instr(Opcode::Jump, 0, 0, 0, 0), label.id()),
    {
        self.b.emit_jump(label);
    }

    /// Jump if `cond` is falsy.
    pub fn branch_if_falsy(&mut self, cond: Reg, target: Label)
        ensures
            final(self)@ == old(self)@.jumped(
                instr(Opcode::Branch, cond.no(), 0, 0, 0),
                target.id(),
            ),
    {
        self.b.emit_branch(cond.0, target);
    }

    pub fn return_(&mut self, value: Reg)
        ensures
            final(self)@ == old(self)@.emitted(instr(Opcode::Return, value.no(), 0, 0, 0)),
    {
        self.b.emit_return(value.0);
    }

    pub fn halt(&mut self)
        ensures
            final(self)@ == old(self)@.emitted(instr(Opcode::Halt, 0, 0, 0, 0)),
    {
        self.b.emit_halt();
    }

    pub fn yield_(&mut self)
        ensures
            final(self)@ == old(self)@.emitted(instr(Opcode::Yield, 0, 0, 0, 0)),
    {
        self.b.emit_yield();
    }

    pub fn sleep(&mut self, millis: Reg)
        ensures
            final(self)@ == old(self)@.emitted(instr(Opcode::Sleep, millis.no(), 0, 0, 0)),
    {
        self.b.emit_sleep(millis.0);
    }

    pub fn exit(&mut self, reg: Reg)
        ensures
            final(self)@ == old(self)@.emitted(instr(Opcode::Exit, reg.no(), 0, 0, 0)),
    {
        self.b.emit_exit(reg.0);
    }

    /// Spawn into a chosen register.
    pub fn spawn_at(&mut self, dst: Reg, function: FuncId, argc: u8)
        ensures
            final(self)@ == old(self)@.emitted(instr(Opcode::Spawn, dst.no(), argc, 0, function as i32)),
    {
        self.b.emit_spawn(dst.0, function, argc);
    }

    pub fn send(&mut self, target_cap: Reg, msg: Reg)
        ensures
            final(self)@ == old(self)@.emitted(instr(Opcode::Send, target_cap.no(), msg.no(), 0, 0)),
    {
        self.b.emit_send(target_cap.0, msg.0);
    }

    pub fn trap(&mut self, code: i32)
        ensures
            final(self)@ == old(self)@.emitted(instr(Opcode::Trap, 0, 0, 0, code)),
    {
        self.b.emit_trap(code);
    }

    /// Call a native function on the registers from `base` on.
    pub fn native_n(&mut self, base: Reg, native: u32, argc: u8)
        ensures
            final(self)@ == old(self)@.emitted(instr(Opcode::CallNative, base.no(), argc, 0, native as i32)),
    {
        self.b.emit_native_n(base.0, native, argc);
    }

    pub fn call_native(&mut self, base: Reg, native: u32, argc: u8)
        ensures
            final(self)@ == old(self)@.emitted(instr(Opcode::CallNative, base.no(), argc, 0, native as i32)),
    {
        self.b.emit_native_n(base.0, native, argc);
    }

    pub fn call(&mut self, function: FuncId, argc: u8) -> (r: Reg)
        requires
            old(self)@.has_room(1),
        ensures
            r.no() == old(self)@.next_reg,
            final(self)@ == old(self)@.defined(
                instr(Opcode::Call, old(self)@.next_reg, argc, 0, function as i32),
            ),
    {
        let dst = self.local();
        self.b.emit_call(dst.0, function, argc);
        dst
    }

    /// A capability for the running flow.
    pub fn self_cap(&mut self) -> (r: Reg)
        requires
            old(self)@.has_room(1),
        ensures
            r.no() == old(self)@.next_reg,
            final(self)@ == old(self)@.defined(
                instr(Opcode::SelfPid, old(self)@.next_reg, 0, 0, 0),
            ),
    {
        let dst = self.local();
        self.b.emit_self_pid(dst.0);
        dst
    }

    /// A capability for a new child.
    pub fn spawn(&mut self, function: FuncId, argc: u8) -> (r: Reg)
        requires
            old(self)@.has_room(1),
        ensures
            r.no() == old(self)@.next_reg,
            final(self)@ == old(self)@.defined(
                instr(Opcode::Spawn, old(self)@.next_reg, argc, 0, function as i32),
            ),
    {
        let dst = self.local();
        self.b.emit_spawn(dst.0, function, argc);
        dst
    }

    /// Spawn a child that may call no native function; a capability for it that
    /// allows sending and asking.
    pub fn spawn_confined(&mut self, function: FuncId, argc: u8) -> (r: Reg)
        requires
            old(self)@.has_room(1),
        ensures
            r.no() == old(self)@.next_reg,
            final(self)@ == old(self)@.defined(
                instr(Opcode::Spawn, old(self)@.next_reg, argc, 0x03, function as i32),
            ),
    {
        let dst = self.local();
        self.b.emit_spawn_confined(dst.0, function, argc, 0x03);
        dst
    }

    pub fn receive(&mut self) -> (r: Reg)
        requires
            old(self)@.has_room(1),
        ensures
            r.no() == old(self)@.next_reg,
            final(self)@ == old(self)@.defined(
                instr(Opcode::Receive, old(self)@.next_reg, 0, 0, 0),
            ),
    {
        let dst = self.local();
        self.b.emit_receive(dst.0);
        dst
    }

    pub fn receive_timeout(&mut self, millis: Reg) -> (r: Reg)
        requires
            old(self)@.has_room(1),
        ensures
            r.no() == old(self)@.next_reg,
            final(self)@ == old(self)@.defined(
                instr(Opcode::ReceiveTimeout, old(self)@.next_reg, millis.no(), 0, 0),
            ),
    {
        let dst = self.local();
        self.b.emit_receive_timeout(dst.0, millis.0);
        dst
    }

    pub fn receive_match(&mut self, tag: Reg) -> (r: Reg)
        requires
            old(self)@.has_room(1),
        ensures
            r.no() == old(self)@.next_reg,
            final(self)@ == old(self)@.defined(
                ext_instr(ExtOpcode::ReceiveMatch, old(self)@.next_reg, tag.no(), 0, 0),
            ),
    {
        let dst = self.local();
        self.b.emit_receive_match(dst.0, tag.0);
        dst
    }

    pub fn receive_match_imm(&mut self, tag: u16) -> (r: Reg)
        requires
            old(self)@.has_room(1),
        ensures
            r.no() == old(self)@.next_reg,
            final(self)@ == old(self)@.defined(
                ext_instr(ExtOpcode::ReceiveMatchImm, old(self)@.next_reg, 0, 0, tag as i32),
            ),
    {
        let dst = self.local();
        self.b.emit_receive_match_imm(dst.0, tag);
        dst
    }

    /// Send a request and wait for the reply to it.
    pub fn ask(&mut self, target_cap: Reg, msg: Reg) -> (r: Reg)
        requires
            old(self)@.has_room(1),
        ensures
            r.no() == old(self)@.next_reg,
            final(self)@ == old(self)@.defined(
                ext_instr(ExtOpcode::Ask, old(self)@.next_reg, target_cap.no(), msg.no(), 0),
            ),
    {
        let dst = self.local();
        self.b.emit_ask(dst.0, target_cap.0, msg.0);
        dst
    }

    /// Send a request and wait a limited time for the reply to it.
    pub fn ask_timeout(&mut self, target_cap: Reg, msg: Reg, millis: Reg) -> (r: Reg)
        requires
            old(self)@.has_room(1),
        ensures
            r.no() == old(self)@.next_reg,
            final(self)@ == old(self)@.defined(
                ext_instr(
                    ExtOpcode::AskTimeout,
                    old(self)@.next_reg,
                    target_cap.no(),
                    msg.no(),
                    millis.no() as i32,
                ),
            ),
    {
        let dst = self.local();
        self.b.emit_ask_timeout(dst.0, target_cap.0, msg.0, millis.0);
        dst
    }

    /// Watch a flow; the register holds the monitor reference.
    pub fn monitor(&mut self, target_cap: Reg) -> (r: Reg)
        requires
            old(self)@.has_room(1),
        ensures
            r.no() == old(self)@.next_reg,
            final(self)@ == old(self)@.defined(
                ext_instr(ExtOpcode::Monitor, old(self)@.next_reg, target_cap.no(), 0, 0),
            ),
    {
        let dst = self.local();
        self.b.emit_monitor(dst.0, target_cap.0);
        dst
    }

    /// Link with a flow; the register holds the link id.
    pub fn link(&mut self, target_cap: Reg) -> (r: Reg)
        requires
            old(self)@.has_room(1),
        ensures
            r.no() == old(self)@.next_reg,
            final(self)@ == old(self)@.defined(
                ext_instr(ExtOpcode::Link, old(self)@.next_reg, target_cap.no(), 0, 0),
            ),
    {
        let dst = self.local();
        self.b.emit_link(dst.0, target_cap.0);
        dst
    }

    /// Call a native function without arguments.
    pub fn call_native0(&mut self, native: u32) -> (r: Reg)
        requires
            old(self)@.has_room(1),
        ensures
            r.no() == old(self)@.next_reg,
            final(self)@ == old(self)@.defined(
                instr(Opcode::CallNative, old(self)@.next_reg, 0, 0, native as i32),
            ),
    {
        let dst = self.local();
        self.b.emit_call_native(dst.0, native, 0);
        dst
    }

    /// Call a native function of one argument on a copy of `src`, which keeps
    /// its value.
    pub fn native1_from(&mut self, src: Reg, native: u32) -> (r: Reg)
        requires
            old(self)@.has_room(1),
        ensures
            r.no() == old(self)@.next_reg,
            final(self)@ == old(self)@.grown().native1(old(self)@.next_reg, src.no(), native),
    {
        let dst = self.local();
        self.b.emit_native1_from(dst.0, src.0, native);
        dst
    }

    /// The same for a function that is called for its effect.
    pub fn native1_on(&mut self, src: Reg, native: u32)
        requires
            old(self)@.has_room(1),
        ensures
            final(self)@ == old(self)@.grown().native1(old(self)@.next_reg, src.no(), native),
    {
        let tmp = self.local();
        self.b.emit_native1_from(tmp.0, src.0, native);
    }

    /// A message from its parts, by way of the native function that makes
    /// messages.
    pub fn make_msg(
        &mut self,
        native_index: u32,
        sender: Reg,
        request_id: Reg,
        tag: i32,
        payload: Reg,
    ) -> (r: Reg)
        requires
            old(self)@.has_room(4),
        ensures
            r.no() == old(self)@.next_reg,
            final(self)@ == msg_made(
                old(self)@,
                native_index,
                instr(Opcode::Move, old(self)@.next_reg, sender.no(), 0, 0),
                request_id.no(),
                tag,
                payload.no(),
            ),
    {
        proof {
            reveal_with_fuel(FnView::grown_by, 5);
        }
        let w = self.window(4);
        self.mov(w.at(0), sender);
        self.mov(w.at(1), request_id);
        self.set(w.at(2), tag);
        self.mov(w.at(3), payload);
        self.native_n(w.base(), native_index, 4);
        w.base()
    }

    /// A message without a sender of its own: sending it fills that in.
    pub fn hop(&mut self, request_id: Reg, tag: i32, payload: Reg) -> (r: Reg)
        requires
            old(self)@.has_room(4),
        ensures
            r.no() == old(self)@.next_reg,
            final(self)@ == msg_made(
                old(self)@,
                2,
                instr(Opcode::LoadImm, old(self)@.next_reg, 0, 0, 0),
                request_id.no(),
                tag,
                payload.no(),
            ),
    {
        proof {
            reveal_with_fuel(FnView::grown_by, 5);
        }
        let w = self.window(4);
        self.set(w.at(0), 0);
        self.mov(w.at(1), request_id);
        self.set(w.at(2), tag);
        self.mov(w.at(3), payload);
        self.native_n(w.base(), 2, 4);
        w.base()
    }

    /// A message whose sender field is filled by hand. Sending overwrites it.
    pub fn make_msg_legacy_sender(
        &mut self,
        native_index: u32,
        sender: Reg,
        request_id: Reg,
        tag: i32,
        payload: Reg,
    ) -> (r: Reg)
        requires
            old(self)@.has_room(4),
        ensures
            r.no() == old(self)@.next_reg,
            final(self)@ == msg_made(
                old(self)@,
                native_index,
                instr(Opcode::Move, old(self)@.next_reg, sender.no(), 0, 0),
                request_id.no(),
                tag,
                payload.no(),
            ),
    {
        self.make_msg(native_index, sender, request_id, tag, payload)
    }

    /// The sender of a message.
    pub fn hop_sender(&mut self, msg: Reg) -> (r: Reg)
        requires
            old(self)@.has_room(1),
        ensures
            r.no() == old(self)@.next_reg,
            final(self)@ == old(self)@.grown().native1(old(self)@.next_reg, msg.no(), 3),
    {
        self.native1_from(msg, 3)
    }

    /// The correlation token of a message.
    pub fn hop_request_id(&mut self, msg: Reg) -> (r: Reg)
        requires
            old(self)@.has_room(1),
        ensures
            r.no() == old(self)@.next_reg,
            final(self)@ == old(self)@.grown().native1(old(self)@.next_reg, msg.no(), 4),
    {
        self.native1_from(msg, 4)
    }

    /// The tag of a message.
    pub fn hop_tag(&mut self, msg: Reg) -> (r: Reg)
        requires
            old(self)@.has_room(1),
        ensures
            r.no() == old(self)@.next_reg,
            final(self)@ == old(self)@.grown().native1(old(self)@.next_reg, msg.no(), 5),
    {
        self.native1_from(msg, 5)
    }

    /// The payload of a message.
    pub fn hop_payload(&mut self, msg: Reg) -> (r: Reg)
        requires
            old(self)@.has_room(1),
        ensures
            r.no() == old(self)@.next_reg,
            final(self)@ == old(self)@.grown().native1(old(self)@.next_reg, msg.no(), 6),
    {
        self.native1_from(msg, 6)
    }

    /// The capability to answer a message with.
    pub fn hop_reply_cap(&mut self, msg: Reg) -> (r: Reg)
        requires
            old(self)@.has_room(1),
        ensures
            r.no() == old(self)@.next_reg,
            final(self)@ == old(self)@.grown().native1(old(self)@.next_reg, msg.no(), 7),
    {
        self.native1_from(msg, 7)
    }

    /// Answer a message: the reply carries its correlation token.
    pub fn send_reply(&mut self, msg: Reg, tag: i32, payload: Reg)
        requires
            old(self)@.has_room(6),
        ensures
            final(self)@ == reply_sent(old(self)@, msg.no(), tag, payload.no()),
    {
        let cap = self.hop_reply_cap(msg);
        let request_id = self.hop_request_id(msg);
        let reply = self.hop(request_id, tag, payload);
        self.send(cap, reply);
    }
}

/// A fresh register is none of the parameters, is in the frame, and is not
/// one that was taken before: those are all below it. The scratch register is
/// one of these.
pub proof fn local_is_fresh(f: FnView, taken: u8)
    requires
        f.framed(),
        f.has_room(1),
        taken < f.next_reg,
    ensures
        f.grown().framed(),
        f.next_reg >= f.b.functions[f.function as int].arity,
        f.next_reg != taken,
        f.next_reg < f.grown().b.functions[f.function as int].num_registers,
        taken < f.grown().next_reg,
        f.next_reg < f.grown().next_reg,
        f.with_temp().framed(),
        f.scratch is None ==> f.temp_reg() == f.next_reg,
{
}

/// Registers that are handed out one after the other all differ, and the frame
/// has all of them.
pub proof fn locals_differ(f: FnView, i: nat, j: nat)
    requires
        f.framed(),
        i < j,
        f.has_room(j),
    ensures
        f.grown_by(i).next_reg == f.next_reg + i,
        f.grown_by(j).next_reg == f.next_reg + j,
        f.grown_by(j).framed(),
        f.grown_by(i).next_reg != f.grown_by(j).next_reg,
        f.grown_by(i).next_reg < f.grown_by(j).b.functions[f.function as int].num_registers,
{
    growing(f, i);
    growing(f, j);
}

proof fn growing(f: FnView, n: nat)
    requires
        f.framed(),
        f.has_room(n),
    ensures
        f.grown_by(n).framed(),
        f.grown_by(n).function == f.function,
        f.grown_by(n).next_reg == f.next_reg + n,
    decreases n,
{
    if n > 0 {
        growing(f, (n - 1) as nat);
    }
}

/// A function starts with a frame that has its parameters, and emitting
/// instructions takes no register and leaves the frame as it is.
pub proof fn emitting_takes_no_register(
    b: BuilderView,
    name: Seq<char>,
    arity: u8,
    f: FnView,
    i: Instruction,
    label: u32,
)
    requires
        b.functions.len() < u32::MAX,
        f.framed(),
    ensures
        fn_opened(b, name, arity, initial_frame(arity)).framed(),
        f.emitted(i).framed() && f.emitted(i).next_reg == f.next_reg,
        f.jumped(i, label).framed() && f.jumped(i, label).next_reg == f.next_reg,
        f.bound(label).framed() && f.bound(label).next_reg == f.next_reg,
        f.labelled().framed() && f.labelled().next_reg == f.next_reg,
{
}

/// The answer to a message: its reply capability and its correlation token are
/// taken out, the reply is made, and sent.
pub open spec fn reply_sent(f: FnView, msg: u8, tag: i32, payload: u8) -> FnView {
    let cap = f.next_reg;
    let f = f.grown().native1(cap, msg, 7);
    let request_id = f.next_reg;
    let f = f.grown().native1(request_id, msg, 4);
    let reply = f.next_reg;
    msg_made(
        f,
        2,
        instr(Opcode::LoadImm, reply, 0, 0, 0),
        request_id,
        tag,
        payload,
    ).emitted(instr(Opcode::Send, cap, reply, 0, 0))
}

/// The four argument registers of `make_msg` filled and the call made: first
/// the sender by instruction `sender`, then the other fields.
pub open spec fn msg_made(
    f: FnView,
    native: u32,
    sender: Instruction,
    request_id: u8,
    tag: i32,
    payload: u8,
) -> FnView {
    let base = f.next_reg;
    f.grown().grown().grown().grown().emitted(sender).emitted(
        instr(Opcode::Move, reg_sum(base, 1), request_id, 0, 0),
    ).emitted(instr(Opcode::LoadImm, reg_sum(base, 2), 0, 0, tag)).emitted(
        instr(Opcode::Move, reg_sum(base, 3), payload, 0, 0),
    ).emitted(instr(Opcode::CallNative, base, 4, 0, native as i32))
}

/// The state at the start of a loop's body.
pub open spec fn loop_head(f: FnView, counter: u8, limit: u8) -> FnView {
    let cond = f.next_reg;
    let head = f.b.next_label;
    f.labelled().labelled().grown().bound(head).emitted(
        instr(Opcode::Lt, cond, counter, limit, 0),
    ).jumped(instr(Opcode::Branch, cond, 0, 0, 0), (head + 1) as u32)
}

/// The state after a loop whose body ended in `f`: back to the head, and the
/// exit bound behind it.
pub open spec fn loop_tail(f: FnView, head: u32) -> FnView {
    f.jumped(instr(Opcode::Jump, 0, 0, 0, 0), head).bound((head + 1) as u32)
}

} // verus!
