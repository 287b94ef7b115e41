//! Assembler for modules.

use std::collections::HashMap;

use vstd::hash_map::StringHashMap;
use vstd::prelude::*;

use super::chunk::{Chunk, FunctionDef, FunctionView};
use super::instruction::{ext_instr, instr, Instruction};
use super::opcode::{ExtOpcode, Opcode};
use super::value::{value_eq, Value};
use super::verify::jump_target;

verus! {

broadcast use vstd::std_specs::hash::group_hash_axioms;

/// A jump target that is bound to an instruction before or after its uses.
#[derive(Clone, Copy, Debug, PartialEq, Eq, Hash, Structural)]
pub struct Label(u32);

impl Label {
    pub closed spec fn id(self) -> u32 {
        self.0
    }
}

/// The state of an assembly.
#[verifier::ext_equal]
pub struct BuilderView {
    pub name: Seq<char>,
    pub constants: Seq<Value>,
    pub code: Seq<Instruction>,
    pub functions: Seq<FunctionView>,
    pub next_label: u32,
    /// Instruction that each bound label stands for.
    pub targets: Map<u32, u32>,
    /// Jumps whose offset is still to be filled in, with their labels.
    pub pending: Seq<(usize, u32)>,
    /// Function of each name, the latest where several share one.
    pub names: Map<Seq<char>, u32>,
}

impl BuilderView {
    pub open spec fn emitted(self, i: Instruction) -> BuilderView {
        BuilderView { code: self.code.push(i), ..self }
    }

    /// With a jump to `label` appended.
    pub open spec fn jumped(self, i: Instruction, label: u32) -> BuilderView {
        BuilderView {
            code: self.code.push(i),
            pending: self.pending.push((self.code.len() as usize, label)),
            ..self
        }
    }

    /// With `label` bound to the next instruction.
    pub open spec fn bound(self, label: u32) -> BuilderView {
        BuilderView { targets: self.targets.insert(label, self.code.len() as u32), ..self }
    }

    /// With a function that starts at the next instruction.
    pub open spec fn opened(self, name: Seq<char>, arity: u8, num_registers: u8) -> BuilderView {
        BuilderView {
            functions: self.functions.push(
                FunctionView { name, entry: self.code.len() as u32, arity, num_registers },
            ),
            names: self.names.insert(name, self.functions.len() as u32),
            ..self
        }
    }

    /// With another number of registers for a function of the table.
    pub open spec fn resized(self, function: u32, num_registers: u8) -> BuilderView {
        if function < self.functions.len() {
            BuilderView {
                functions: self.functions.update(
                    function as int,
                    FunctionView { num_registers, ..self.functions[function as int] },
                ),
                ..self
            }
        } else {
            self
        }
    }

    /// Every label that a jump uses is bound.
    pub open spec fn complete(self) -> bool {
        forall|k: int|
            0 <= k < self.pending.len() ==> self.targets.dom().contains(
                (#[trigger] self.pending[k]).1,
            )
    }

    /// The jumps to fill in are distinct instructions of the code.
    pub open spec fn jumps_in_order(self) -> bool {
        &&& forall|k: int|
            0 <= k < self.pending.len() ==> (#[trigger] self.pending[k]).0 < self.code.len()
        &&& forall|j: int, k: int|
            0 <= j < k < self.pending.len() ==> (#[trigger] self.pending[j]).0 < (
            #[trigger] self.pending[k]).0
    }
}

impl BuilderView {
    /// The jumps are distinct instructions of the code, and every label that is
    /// bound stands for an instruction, or for the place behind the last one.
    pub open spec fn laid_out(self) -> bool {
        &&& self.jumps_in_order()
        &&& forall|label: u32| #[trigger]
            self.targets.dom().contains(label) ==> self.targets[label] <= self.code.len()
    }
}

/// The layout is in order from the first to the last step of an assembly.
pub proof fn assembling_keeps_layout(
    b: BuilderView,
    name: Seq<char>,
    i: Instruction,
    label: u32,
    function: u32,
    arity: u8,
    num_registers: u8,
    constants: Seq<Value>,
    next_label: u32,
)
    requires
        b.laid_out(),
        b.code.len() <= u32::MAX,
    ensures
        empty_builder(name).laid_out(),
        b.emitted(i).laid_out(),
        b.jumped(i, label).laid_out(),
        b.bound(label).laid_out(),
        b.opened(name, arity, num_registers).laid_out(),
        b.resized(function, num_registers).laid_out(),
        (BuilderView { constants, next_label, ..b }).laid_out(),
{
}

/// The operations on two registers.
pub open spec fn is_binop(op: Opcode) -> bool {
    op is Add || op is Sub || op is Mul || op is Div || op is Mod || op is Eq || op is Lt || op is Le
}

/// Where the pool holds `v`, searching from `i`; the pool's length if nowhere.
pub open spec fn const_index(constants: Seq<Value>, v: Value, i: nat) -> nat
    decreases constants.len() - i,
{
    if i >= constants.len() {
        constants.len()
    } else if value_eq(constants[i as int], v) {
        i
    } else {
        const_index(constants, v, i + 1)
    }
}

/// The pool with `v` in it.
pub open spec fn with_const(constants: Seq<Value>, v: Value) -> Seq<Value> {
    if const_index(constants, v, 0) < constants.len() {
        constants
    } else {
        constants.push(v)
    }
}

/// The offset that takes the jump at `at` to `target`.
pub open spec fn offset_to(at: usize, target: u32) -> i32 {
    (target - (at + 1)) as i32
}

/// The code with the first `n` jumps filled in.
pub open spec fn patched(
    code: Seq<Instruction>,
    pending: Seq<(usize, u32)>,
    targets: Map<u32, u32>,
    n: int,
) -> Seq<Instruction>
    decreases n,
{
    if n <= 0 {
        code
    } else {
        let before = patched(code, pending, targets, n - 1);
        let (at, label) = pending[n - 1];
        if at < before.len() {
            before.update(
                at as int,
                Instruction { imm: offset_to(at, targets[label]), ..before[at as int] },
            )
        } else {
            before
        }
    }
}

/// The module that an assembly describes.
pub open spec fn finished(b: BuilderView, chunk: Chunk) -> bool {
    &&& chunk.name@ == b.name
    &&& chunk.constants@ == b.constants
    &&& chunk.code@ == patched(b.code, b.pending, b.targets, b.pending.len() as int)
    &&& functions_view(chunk.functions@) == b.functions
}

pub open spec fn functions_view(functions: Seq<FunctionDef>) -> Seq<FunctionView> {
    functions.map_values(|f: FunctionDef| f@)
}

/// Filling in jumps changes no instruction but the jumps, and of those only
/// the offset; every jump then goes to the instruction that its label was
/// bound to, wherever in the code the two are.
pub proof fn jumps_reach_their_labels(b: BuilderView, n: int, k: int, i: int)
    requires
        b.laid_out(),
        b.code.len() <= i32::MAX,
        0 <= k < n <= b.pending.len(),
        b.targets.dom().contains(b.pending[k].1),
        0 <= i < b.code.len(),
    ensures
        patched(b.code, b.pending, b.targets, n).len() == b.code.len(),
        jump_target(
            b.pending[k].0 as int,
            patched(b.code, b.pending, b.targets, n)[b.pending[k].0 as int].imm,
        ) == b.targets[b.pending[k].1],
        (patched(b.code, b.pending, b.targets, n)[i]) == (Instruction {
            imm: patched(b.code, b.pending, b.targets, n)[i].imm,
            ..b.code[i]
        }),
        (forall|j: int| 0 <= j < n ==> (#[trigger] b.pending[j]).0 != i) ==> patched(
            b.code,
            b.pending,
            b.targets,
            n,
        )[i] == b.code[i],
    decreases n,
{
    patched_len(b.code, b.pending, b.targets, n - 1);
    if n - 1 > 0 {
        if k < n - 1 {
            jumps_reach_their_labels(b, n - 1, k, i);
        }
        patched_elsewhere(b, n - 1, i);
    } else {
        assert(patched(b.code, b.pending, b.targets, 0) == b.code);
    }
}

proof fn patched_len(
    code: Seq<Instruction>,
    pending: Seq<(usize, u32)>,
    targets: Map<u32, u32>,
    n: int,
)
    ensures
        patched(code, pending, targets, n).len() == code.len(),
    decreases n,
{
    if n > 0 {
        patched_len(code, pending, targets, n - 1);
    }
}

proof fn patched_elsewhere(b: BuilderView, n: int, i: int)
    requires
        b.jumps_in_order(),
        0 <= n <= b.pending.len(),
        0 <= i < b.code.len(),
    ensures
        patched(b.code, b.pending, b.targets, n)[i] == (Instruction {
            imm: patched(b.code, b.pending, b.targets, n)[i].imm,
            ..b.code[i]
        }),
        (forall|j: int| 0 <= j < n ==> (#[trigger] b.pending[j]).0 != i) ==> patched(
            b.code,
            b.pending,
            b.targets,
            n,
        )[i] == b.code[i],
    decreases n,
{
    if n > 0 {
        patched_len(b.code, b.pending, b.targets, n - 1);
        patched_elsewhere(b, n - 1, i);
    }
}

/// Assembles a [`Chunk`] instruction by instruction. Jumps name labels; their
/// offsets are filled in at the end.
pub struct ChunkBuilder {
    name: String,
    constants: Vec<Value>,
    code: Vec<Instruction>,
    functions: Vec<FunctionDef>,
    next_label: u32,
    label_targets: HashMap<u32, u32>,
    pending_jumps: Vec<(usize, u32)>,
    fn_starts: StringHashMap<u32>,
}

impl View for ChunkBuilder {
    type V = BuilderView;

    closed spec fn view(&self) -> BuilderView {
        BuilderView {
            name: self.name@,
            constants: self.constants@,
            code: self.code@,
            functions: functions_view(self.functions@),
            next_label: self.next_label,
            targets: self.label_targets@,
            pending: self.pending_jumps@,
            names: self.fn_starts@,
        }
    }
}

/// An assembly with nothing in it.
pub open spec fn empty_builder(name: Seq<char>) -> BuilderView {
    BuilderView {
        name,
        constants: Seq::empty(),
        code: Seq::empty(),
        functions: Seq::empty(),
        next_label: 0,
        targets: Map::empty(),
        pending: Seq::empty(),
        names: Map::empty(),
    }
}

impl ChunkBuilder {
    pub fn new(name: &str) -> (b: ChunkBuilder)
        ensures
            b@ == empty_builder(name@),
    {
        let b = ChunkBuilder {
            name: name.to_owned(),
            constants: Vec::new(),
            code: Vec::new(),
            functions: Vec::new(),
            next_label: 0,
            label_targets: HashMap::new(),
            pending_jumps: Vec::new(),
            fn_starts: StringHashMap::new(),
        };
        assert(b@ =~= empty_builder(name@));
        b
    }

    /// The index of `v` in the constant pool, which holds equal constants once.
    pub fn const_(&mut self, v: Value) -> (index: u32)
        ensures
            index == const_index(old(self)@.constants, v, 0) as u32,
            final(self)@ == (BuilderView {
                constants: with_const(old(self)@.constants, v),
                ..old(self)@
            }),
    {
        let mut i: usize = 0;
        while i < self.constants.len()
            invariant
                i <= self.constants@.len(),
                self@ == old(self)@,
                self@.constants == self.constants@,
                const_index(self@.constants, v, 0) == const_index(self@.constants, v, i as nat),
            decreases self.constants@.len() - i,
        {
            if self.constants[i] == v {
                return i as u32;
            }
            i = i + 1;
        }
        self.constants.push(v);
        i as u32
    }

    /// A label that no other call returned.
    pub fn new_label(&mut self) -> (label: Label)
        requires
            old(self)@.next_label < u32::MAX,
        ensures
            label.id() == old(self)@.next_label,
            final(self)@ == (BuilderView {
                next_label: (old(self)@.next_label + 1) as u32,
                ..old(self)@
            }),
    {
        let label = Label(self.next_label);
        self.next_label = self.next_label + 1;
        label
    }

    /// Bind `label` to the next instruction that is emitted.
    pub fn bind_label(&mut self, label: Label)
        ensures
            final(self)@ == old(self)@.bound(label.id()),
    {
        self.label_targets.insert(label.0, self.code.len() as u32);
    }

    fn emit(&mut self, i: Instruction) -> (at: usize)
        ensures
            at == old(self)@.code.len(),
            final(self)@ == old(self)@.emitted(i),
    {
        let at: usize = self.code.len();
        self.code.push(i);
        at
    }

    /// `op` is arithmetic or a comparison.
    pub fn emit_binop(&mut self, op: Opcode, dst: u8, lhs: u8, rhs: u8)
        requires
            is_binop(op),
        ensures
            final(self)@ == old(self)@.emitted(instr(op, dst, lhs, rhs, 0)),
    {
        self.emit(Instruction::abc(op, dst, lhs, rhs));
    }

    pub fn emit_jump(&mut self, target: Label)
        ensures
            final(self)@ == old(self)@.jumped(instr(Opcode::Jump, 0, 0, 0, 0), target.id()),
    {
        let at: usize = self.emit(Instruction::only_imm(Opcode::Jump, 0));
        self.pending_jumps.push((at, target.0));
    }

    /// Jump if register `cond` is falsy.
    pub fn emit_branch(&mut self, cond: u8, target: Label)
        ensures
            final(self)@ == old(self)@.jumped(instr(Opcode::Branch, cond, 0, 0, 0), target.id()),
    {
        let at: usize = self.emit(Instruction::a_imm(Opcode::Branch, cond, 0));
        self.pending_jumps.push((at, target.0));
    }

    pub fn emit_halt(&mut self)
        ensures
            final(self)@ == old(self)@.emitted(instr(Opcode::Halt, 0, 0, 0, 0)),
    {
        self.emit(Instruction::new(Opcode::Halt, 0, 0, 0, 0));
    }

    pub fn emit_load_const(&mut self, dst: u8, konst: u32)
        ensures
            final(self)@ == old(self)@.emitted(instr(Opcode::LoadConst, dst, 0, 0, konst as i32)),
    {
        self.emit(Instruction::new(Opcode::LoadConst, dst, 0, 0, konst as i32));
    }

    pub fn emit_load_imm(&mut self, dst: u8, imm: i32)
        ensures
            final(self)@ == old(self)@.emitted(instr(Opcode::LoadImm, dst, 0, 0, imm)),
    {
        self.emit(Instruction::new(Opcode::LoadImm, dst, 0, 0, imm));
    }

    pub fn emit_move(&mut self, dst: u8, src: u8)
        ensures
            final(self)@ == old(self)@.emitted(instr(Opcode::Move, dst, src, 0, 0)),
    {
        self.emit(Instruction::new(Opcode::Move, dst, src, 0, 0));
    }

    pub fn emit_neg(&mut self, dst: u8, src: u8)
        ensures
            final(self)@ == old(self)@.emitted(instr(Opcode::Neg, dst, src, 0, 0)),
    {
        self.emit(Instruction::new(Opcode::Neg, dst, src, 0, 0));
    }

    pub fn emit_spawn(&mut self, dst: u8, function: u32, argc: u8)
        ensures
            final(self)@ == old(self)@.emitted(instr(Opcode::Spawn, dst, argc, 0, function as i32)),
    {
        self.emit(Instruction::new(Opcode::Spawn, dst, argc, 0, function as i32));
    }

    /// Spawn a child that has at most the given rights; none given means the
    /// rights of the parent.
    pub fn emit_spawn_confined(&mut self, dst: u8, function: u32, argc: u8, rights: u8)
        ensures
            final(self)@ == old(self)@.emitted(instr(Opcode::Spawn, dst, argc, rights, function as i32)),
    {
        self.emit(Instruction::new(Opcode::Spawn, dst, argc, rights, function as i32));
    }

    pub fn emit_yield(&mut self)
        ensures
            final(self)@ == old(self)@.emitted(instr(Opcode::Yield, 0, 0, 0, 0)),
    {
        self.emit(Instruction::new(Opcode::Yield, 0, 0, 0, 0));
    }

    pub fn emit_sleep(&mut self, millis_reg: u8)
        ensures
            final(self)@ == old(self)@.emitted(instr(Opcode::Sleep, millis_reg, 0, 0, 0)),
    {
        self.emit(Instruction::new(Opcode::Sleep, millis_reg, 0, 0, 0));
    }

    pub fn emit_exit(&mut self, reg: u8)
        ensures
            final(self)@ == old(self)@.emitted(instr(Opcode::Exit, reg, 0, 0, 0)),
    {
        self.emit(Instruction::new(Opcode::Exit, reg, 0, 0, 0));
    }

    pub fn emit_self_pid(&mut self, dst: u8)
        ensures
            final(self)@ == old(self)@.emitted(instr(Opcode::SelfPid, dst, 0, 0, 0)),
    {
        self.emit(Instruction::new(Opcode::SelfPid, dst, 0, 0, 0));
    }

    pub fn emit_send(&mut self, target_reg: u8, msg_reg: u8)
        ensures
            final(self)@ == old(self)@.emitted(instr(Opcode::Send, target_reg, msg_reg, 0, 0)),
    {
        self.emit(Instruction::new(Opcode::Send, target_reg, msg_reg, 0, 0));
    }

    pub fn emit_receive(&mut self, dst: u8)
        ensures
            final(self)@ == old(self)@.emitted(instr(Opcode::Receive, dst, 0, 0, 0)),
    {
        self.emit(Instruction::new(Opcode::Receive, dst, 0, 0, 0));
    }

    pub fn emit_receive_timeout(&mut self, dst: u8, millis_reg: u8)
        ensures
            final(self)@ == old(self)@.emitted(instr(Opcode::ReceiveTimeout, dst, millis_reg, 0, 0)),
    {
        self.emit(Instruction::new(Opcode::ReceiveTimeout, dst, millis_reg, 0, 0));
    }

    pub fn emit_trap(&mut self, code: i32)
        ensures
            final(self)@ == old(self)@.emitted(instr(Opcode::Trap, 0, 0, 0, code)),
    {
        self.emit(Instruction::new(Opcode::Trap, 0, 0, 0, code));
    }

    pub fn emit_call(&mut self, dst: u8, function: u32, argc: u8)
        ensures
            final(self)@ == old(self)@.emitted(instr(Opcode::Call, dst, argc, 0, function as i32)),
    {
        self.emit(Instruction::new(Opcode::Call, dst, argc, 0, function as i32));
    }

    /// Call a native function. Which functions exist is for the host to say, so
    /// the index is not checked here.
    pub fn emit_call_native(&mut self, dst: u8, native_index: u32, argc: u8)
        ensures
            final(self)@ == old(self)@.emitted(instr(Opcode::CallNative, dst, argc, 0, native_index as i32)),
    {
        self.emit(Instruction::new(Opcode::CallNative, dst, argc, 0, native_index as i32));
    }

    pub fn emit_return(&mut self, reg: u8)
        ensures
            final(self)@ == old(self)@.emitted(instr(Opcode::Return, reg, 0, 0, 0)),
    {
        self.emit(Instruction::new(Opcode::Return, reg, 0, 0, 0));
    }

    pub fn emit_receive_match(&mut self, dst: u8, tag_reg: u8)
        ensures
            final(self)@ == old(self)@.emitted(ext_instr(ExtOpcode::ReceiveMatch, dst, tag_reg, 0, 0)),
    {
        self.emit(Instruction::ext(ExtOpcode::ReceiveMatch, dst, tag_reg, 0, 0));
    }

    pub fn emit_receive_match_imm(&mut self, dst: u8, tag: u16)
        ensures
            final(self)@ == old(self)@.emitted(ext_instr(ExtOpcode::ReceiveMatchImm, dst, 0, 0, tag as i32)),
    {
        self.emit(Instruction::ext(ExtOpcode::ReceiveMatchImm, dst, 0, 0, tag as i32));
    }

    pub fn emit_ask(&mut self, dst: u8, target_reg: u8, msg_reg: u8)
        ensures
            final(self)@ == old(self)@.emitted(ext_instr(ExtOpcode::Ask, dst, target_reg, msg_reg, 0)),
    {
        self.emit(Instruction::ext(ExtOpcode::Ask, dst, target_reg, msg_reg, 0));
    }

    pub fn emit_ask_timeout(&mut self, dst: u8, target_reg: u8, msg_reg: u8, millis_reg: u8)
        ensures
            final(self)@ == old(self)@.emitted(ext_instr(ExtOpcode::AskTimeout, dst, target_reg, msg_reg, millis_reg as i32)),
    {
        self.emit(Instruction::ext(ExtOpcode::AskTimeout, dst, target_reg, msg_reg, millis_reg as i32));
    }

    pub fn emit_monitor(&mut self, dst: u8, target_reg: u8)
        ensures
            final(self)@ == old(self)@.emitted(ext_instr(ExtOpcode::Monitor, dst, target_reg, 0, 0)),
    {
        self.emit(Instruction::ext(ExtOpcode::Monitor, dst, target_reg, 0, 0));
    }

    pub fn emit_demonitor(&mut self, monitor_reg: u8)
        ensures
            final(self)@ == old(self)@.emitted(ext_instr(ExtOpcode::Demonitor, monitor_reg, 0, 0, 0)),
    {
        self.emit(Instruction::ext(ExtOpcode::Demonitor, monitor_reg, 0, 0, 0));
    }

    pub fn emit_link(&mut self, dst: u8, target_reg: u8)
        ensures
            final(self)@ == old(self)@.emitted(ext_instr(ExtOpcode::Link, dst, target_reg, 0, 0)),
    {
        self.emit(Instruction::ext(ExtOpcode::Link, dst, target_reg, 0, 0));
    }

    pub fn emit_unlink(&mut self, link_reg: u8)
        ensures
            final(self)@ == old(self)@.emitted(ext_instr(ExtOpcode::Unlink, link_reg, 0, 0, 0)),
    {
        self.emit(Instruction::ext(ExtOpcode::Unlink, link_reg, 0, 0, 0));
    }

    /// Call a native function of one argument on a copy of `src`, with the
    /// result in `dst`.
    pub fn emit_native1_from(&mut self, dst: u8, src: u8, native: u32)
        ensures
            final(self)@ == old(self)@.emitted(instr(Opcode::Move, dst, src, 0, 0)).emitted(
                instr(Opcode::CallNative, dst, 1, 0, native as i32),
            ),
    {
        self.emit_move(dst, src);
        self.emit_call_native(dst, native, 1);
    }

    /// Call a native function on the registers from `base` on.
    pub fn emit_native_n(&mut self, base: u8, native: u32, argc: u8)
        ensures
            final(self)@ == old(self)@.emitted(
                instr(Opcode::CallNative, base, argc, 0, native as i32),
            ),
    {
        self.emit_call_native(base, native, argc);
    }

    /// Start a function at the next instruction. The index can be used in
    /// calls before the body is complete.
    pub fn begin_function(&mut self, name: &str, arity: u8, num_registers: u8) -> (index: u32)
        ensures
            index == old(self)@.functions.len() as u32,
            final(self)@ == old(self)@.opened(name@, arity, num_registers),
    {
        let entry: u32 = self.code.len() as u32;
        let index: u32 = self.functions.len() as u32;
        let name = name.to_owned();
        self.fn_starts.insert(name.clone(), index);
        self.functions.push(FunctionDef { name, entry, arity, num_registers });
        assert(self@ =~= old(self)@.opened(name@, arity, num_registers));
        index
    }

    pub fn function_index(&self, name: &str) -> (r: Option<u32>)
        ensures
            r == (if self@.names.dom().contains(name@) {
                Some(self@.names[name@])
            } else {
                None
            }),
    {
        match self.fn_starts.get(name) {
            Some(i) => Some(*i),
            None => None,
        }
    }

    /// Change the number of registers of a function; nothing happens if there
    /// is no such function.
    pub fn set_num_registers(&mut self, function_index: u32, num_registers: u8)
        ensures
            final(self)@ == old(self)@.resized(function_index, num_registers),
    {
        let i: usize = function_index as usize;
        if i < self.functions.len() {
            self.functions[i].num_registers = num_registers;
            assert(self@ =~= old(self)@.resized(function_index, num_registers));
        }
    }

    /// Whether every label that a jump uses is bound.
    pub fn is_complete(&self) -> (r: bool)
        ensures
            r == self@.complete(),
    {
        let mut k: usize = 0;
        while k < self.pending_jumps.len()
            invariant
                k <= self.pending_jumps@.len(),
                forall|j: int|
                    0 <= j < k ==> self.label_targets@.dom().contains(
                        (#[trigger] self.pending_jumps@[j]).1,
                    ),
            decreases self.pending_jumps@.len() - k,
        {
            if !self.label_targets.contains_key(&self.pending_jumps[k].1) {
                assert(!self@.targets.dom().contains(self@.pending[k as int].1));
                return false;
            }
            k = k + 1;
        }
        true
    }

    /// The module, with every jump filled in.
    pub fn finish(self) -> (chunk: Chunk)
        requires
            self@.complete(),
        ensures
            finished(self@, chunk),
    {
        let mut code = self.code;
        let mut k: usize = 0;
        while k < self.pending_jumps.len()
            invariant
                k <= self.pending_jumps@.len(),
                self@.complete(),
                self@.pending == self.pending_jumps@,
                self@.targets == self.label_targets@,
                code@ == patched(self@.code, self@.pending, self@.targets, k as int),
            decreases self.pending_jumps@.len() - k,
        {
            let at: usize = self.pending_jumps[k].0;
            let label: u32 = self.pending_jumps[k].1;
            assert(self@.targets.dom().contains(self@.pending[k as int].1));
            match self.label_targets.get(&label) {
                Some(target) => {
                    if at < code.len() {
                        let offset: i128 = *target as i128 - (at as i128 + 1);
                        let mut i: Instruction = code[at];
                        i.imm = offset as i32;
                        code.set(at, i);
                    }
                },
                None => {},
            }
            k = k + 1;
        }
        Chunk { name: self.name, constants: self.constants, code, functions: self.functions }
    }
}

} // verus!
