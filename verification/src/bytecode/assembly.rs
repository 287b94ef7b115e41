//! What a module holds after each step of writing it.

use vstd::prelude::*;

use super::builder::{
    const_index, finished, functions_view, jumps_reach_their_labels, patched, with_const,
    BuilderView,
};
use super::chunk::Chunk;
use super::instruction::Instruction;
use super::opcode::{Op, Opcode};
use super::program::{
    fn_opened, initial_frame, loop_head, loop_tail, msg_made, reply_sent, FnView,
};
use super::value::{value_eq, Value};

verus! {

/// Each step writes behind what is there and changes nothing else: an
/// instruction is appended; a jump is appended and noted with its own place; a
/// label stands for the next instruction to come; and a function begins at the
/// next instruction to come and is found by its name.
pub proof fn steps_write_at_the_end(
    b: BuilderView,
    i: Instruction,
    label: u32,
    name: Seq<char>,
    arity: u8,
    num_registers: u8,
    k: int,
)
    requires
        b.code.len() < u32::MAX,
        b.functions.len() < u32::MAX,
    ensures
        b.emitted(i).code.len() == b.code.len() + 1,
        b.emitted(i).code.last() == i,
        0 <= k < b.code.len() ==> b.emitted(i).code[k] == b.code[k],
        b.emitted(i) == (BuilderView { code: b.emitted(i).code, ..b }),
        b.jumped(i, label).code == b.emitted(i).code,
        b.jumped(i, label).pending.len() == b.pending.len() + 1,
        b.jumped(i, label).pending.last() == (b.code.len() as usize, label),
        b.jumped(i, label).code[b.jumped(i, label).pending.last().0 as int] == i,
        0 <= k < b.pending.len() ==> b.jumped(i, label).pending[k] == b.pending[k],
        b.jumped(i, label) == (BuilderView {
            code: b.jumped(i, label).code,
            pending: b.jumped(i, label).pending,
            ..b
        }),
        b.bound(label).targets.dom().contains(label),
        b.bound(label).emitted(i).code[b.bound(label).targets[label] as int] == i,
        b.bound(label).targets[label] == b.code.len(),
        forall|other: u32|
            other != label ==> b.bound(label).targets.dom().contains(other)
                == #[trigger] b.targets.dom().contains(other) && b.bound(label).targets[other]
                == b.targets[other],
        b.bound(label) == (BuilderView { targets: b.bound(label).targets, ..b }),
        ({
            let o = b.opened(name, arity, num_registers);
            &&& o.functions.len() == b.functions.len() + 1
            &&& o.functions.last().name == name
            &&& o.functions.last().entry == b.code.len()
            &&& o.functions.last().arity == arity
            &&& o.functions.last().num_registers == num_registers
            &&& 0 <= k < b.functions.len() ==> o.functions[k] == b.functions[k]
            &&& o.names.dom().contains(name)
            &&& o.functions[o.names[name] as int] == o.functions.last()
            &&& forall|other: Seq<char>|
                other != name ==> o.names.dom().contains(other)
                    == #[trigger] b.names.dom().contains(other) && o.names[other] == b.names[other]
            &&& o == (BuilderView { functions: o.functions, names: o.names, ..b })
        }),
{
}

/// The frame of a function is resized and nothing else.
pub proof fn resizing_changes_one_frame(b: BuilderView, function: u32, num_registers: u8, k: int)
    requires
        0 <= k < b.functions.len(),
    ensures
        b.resized(function, num_registers).functions.len() == b.functions.len(),
        k == function ==> b.resized(function, num_registers).functions[k].num_registers
            == num_registers,
        k != function ==> b.resized(function, num_registers).functions[k] == b.functions[k],
        b.resized(function, num_registers).functions[k].name == b.functions[k].name,
        b.resized(function, num_registers).functions[k].entry == b.functions[k].entry,
        b.resized(function, num_registers).functions[k].arity == b.functions[k].arity,
        b.resized(function, num_registers) == (BuilderView {
            functions: b.resized(function, num_registers).functions,
            ..b
        }),
{
}

/// A constant is found where it was put, an equal one is put nowhere twice, and
/// no constant moves.
pub proof fn constants_are_shared(constants: Seq<Value>, v: Value, k: int)
    ensures
        const_index(constants, v, 0) < with_const(constants, v).len(),
        ({
            let found = with_const(constants, v)[const_index(constants, v, 0) as int];
            found == v || value_eq(found, v)
        }),
        0 <= k < constants.len() ==> with_const(constants, v)[k] == constants[k],
        0 <= k < const_index(constants, v, 0) ==> !value_eq(constants[k], v),
        0 <= k < constants.len() && value_eq(constants[k], v) ==> with_const(constants, v)
            == constants,
        const_index(constants, v, 0) == constants.len() ==> with_const(constants, v).len()
            == constants.len() + 1 && with_const(constants, v).last() == v,
{
    first_equal(constants, v, 0);
}

proof fn first_equal(constants: Seq<Value>, v: Value, i: nat)
    requires
        i <= constants.len(),
    ensures
        i <= const_index(constants, v, i) <= constants.len(),
        const_index(constants, v, i) < constants.len() ==> value_eq(
            constants[const_index(constants, v, i) as int],
            v,
        ),
        forall|j: int|
            i <= j < const_index(constants, v, i) ==> !value_eq(#[trigger] constants[j], v),
    decreases constants.len() - i,
{
    if i < constants.len() && !value_eq(constants[i as int], v) {
        first_equal(constants, v, i + 1);
    }
}

/// A finished module holds the code as it was written, with every noted jump
/// leading from behind itself to the place of its label.
pub proof fn finished_jumps_land(b: BuilderView, chunk: Chunk, k: int, i: int)
    requires
        finished(b, chunk),
        b.laid_out(),
        b.complete(),
        b.code.len() <= i32::MAX,
        0 <= i < b.code.len(),
    ensures
        chunk.name@ == b.name,
        chunk.constants@ == b.constants,
        chunk.code@.len() == b.code.len(),
        0 <= k < b.pending.len() ==> b.pending[k].0 + 1 + chunk.code@[b.pending[k].0 as int].imm
            == b.targets[b.pending[k].1],
        chunk.code@[i].op == b.code[i].op,
        chunk.code@[i].a == b.code[i].a,
        chunk.code@[i].b == b.code[i].b,
        chunk.code@[i].c == b.code[i].c,
        (forall|j: int| 0 <= j < b.pending.len() ==> (#[trigger] b.pending[j]).0 != i)
            ==> chunk.code@[i] == b.code[i],
        chunk.functions@.len() == b.functions.len(),
        forall|j: int|
            0 <= j < b.functions.len() ==> (#[trigger] chunk.functions@[j])@ == b.functions[j],
{
    let n = b.pending.len() as int;
    if 0 <= k < n {
        jumps_reach_their_labels(b, n, k, i);
    } else if n > 0 {
        jumps_reach_their_labels(b, n, 0, i);
    } else {
        assert(patched(b.code, b.pending, b.targets, n) == b.code);
    }
    assert forall|j: int| 0 <= j < b.functions.len() implies (#[trigger] chunk.functions@[j])@
        == b.functions[j] by {
        assert(functions_view(chunk.functions@)[j] == b.functions[j]);
    }
}

/// The instruction is of this kind and has these operands.
pub open spec fn reads_as(i: Instruction, op: Opcode, a: int, b: int, c: int, imm: int) -> bool {
    i.op == Op::Core(op) && i.a == a && i.b == b && i.c == c && i.imm == imm
}

/// `t` is `f` with `n` more instructions behind its code; no instruction that
/// was there is touched.
pub open spec fn appends(f: FnView, t: FnView, n: int) -> bool {
    &&& t.b.code.len() == f.b.code.len() + n
    &&& forall|k: int| 0 <= k < f.b.code.len() ==> #[trigger] t.b.code[k] == f.b.code[k]
    &&& t.b.constants == f.b.constants
    &&& t.function == f.function
}

/// A new function begins where the code ends, with its arguments in the first
/// registers of a frame of no fewer than four, no scratch register, and the
/// next free register behind the frame.
pub proof fn new_function_has_a_frame(b: BuilderView, name: Seq<char>, arity: u8)
    requires
        b.code.len() <= u32::MAX,
        b.functions.len() < u32::MAX,
    ensures
        ({
            let f = fn_opened(b, name, arity, initial_frame(arity));
            &&& f.function == b.functions.len()
            &&& f.b.functions[f.function as int].name == name
            &&& f.b.functions[f.function as int].arity == arity
            &&& f.b.functions[f.function as int].entry == b.code.len()
            &&& f.b.functions[f.function as int].num_registers == f.next_reg
            &&& f.next_reg >= 4 && f.next_reg >= arity
            &&& f.next_reg == 4 || f.next_reg == arity
            &&& f.scratch is None
            &&& f.b.code == b.code
        }),
{
}

/// A new local takes the next register and no other; a scratch register is
/// taken once and then used again.
pub proof fn locals_are_taken_in_turn(f: FnView, i: Instruction)
    requires
        f.framed(),
        f.has_room(1),
    ensures
        f.grown().next_reg == f.next_reg + 1,
        f.grown().scratch == f.scratch,
        appends(f, f.grown(), 0),
        f.defined(i).next_reg == f.next_reg + 1,
        appends(f, f.defined(i), 1),
        f.defined(i).b.code.last() == i,
        f.scratch is None ==> f.with_temp().next_reg == f.next_reg + 1,
        f.with_temp().scratch == Some(f.temp_reg()),
        f.with_temp().with_temp() == f.with_temp(),
        f.with_temp().temp_reg() == f.temp_reg(),
        appends(f, f.with_temp(), 0),
        f.scratch matches Some(r) ==> f.with_temp() == f && f.temp_reg() == r,
        f.scratch is None ==> f.temp_reg() >= f.b.functions[f.function as int].arity,
{
}

/// A native is called on a copy of its argument: the argument is moved to the
/// destination, where the call finds it and leaves the result.
pub proof fn native_is_called_on_a_copy(f: FnView, dst: u8, src: u8, native: u32)
    requires
        native <= i32::MAX,
    ensures
        ({
            let t = f.native1(dst, src, native);
            let at = f.b.code.len() as int;
            &&& appends(f, t, 2)
            &&& reads_as(t.b.code[at], Opcode::Move, dst as int, src as int, 0, 0)
            &&& reads_as(t.b.code[at + 1], Opcode::CallNative, dst as int, 1, 0, native as int)
            &&& t.next_reg == f.next_reg
        }),
{
}

/// A message is made in four fresh registers in a row: sender, request, tag and
/// payload stand there in this order when the native is called on the four.
pub proof fn message_is_laid_out_in_order(
    f: FnView,
    native: u32,
    sender: Instruction,
    request_id: u8,
    tag: i32,
    payload: u8,
)
    requires
        f.has_room(4),
        native <= i32::MAX,
    ensures
        ({
            let t = msg_made(f, native, sender, request_id, tag, payload);
            let at = f.b.code.len() as int;
            let base = f.next_reg as int;
            &&& appends(f, t, 5)
            &&& t.b.code[at] == sender
            &&& reads_as(t.b.code[at + 1], Opcode::Move, base + 1, request_id as int, 0, 0)
            &&& reads_as(t.b.code[at + 2], Opcode::LoadImm, base + 2, 0, 0, tag as int)
            &&& reads_as(t.b.code[at + 3], Opcode::Move, base + 3, payload as int, 0, 0)
            &&& reads_as(t.b.code[at + 4], Opcode::CallNative, base, 4, 0, native as int)
            &&& t.next_reg == base + 4
        }),
{
}

/// A reply goes to the reply capability of the message and carries the message's
/// request number.
pub proof fn reply_answers_the_message(f: FnView, msg: u8, tag: i32, payload: u8)
    requires
        f.has_room(6),
    ensures
        ({
            let t = reply_sent(f, msg, tag, payload);
            let at = f.b.code.len() as int;
            let cap = f.next_reg as int;
            let request = cap + 1;
            let base = cap + 2;
            &&& appends(f, t, 10)
            &&& reads_as(t.b.code[at], Opcode::Move, cap, msg as int, 0, 0)
            &&& reads_as(t.b.code[at + 1], Opcode::CallNative, cap, 1, 0, 7)
            &&& reads_as(t.b.code[at + 2], Opcode::Move, request, msg as int, 0, 0)
            &&& reads_as(t.b.code[at + 3], Opcode::CallNative, request, 1, 0, 4)
            &&& reads_as(t.b.code[at + 4], Opcode::LoadImm, base, 0, 0, 0)
            &&& reads_as(t.b.code[at + 5], Opcode::Move, base + 1, request, 0, 0)
            &&& reads_as(t.b.code[at + 6], Opcode::LoadImm, base + 2, 0, 0, tag as int)
            &&& reads_as(t.b.code[at + 7], Opcode::Move, base + 3, payload as int, 0, 0)
            &&& reads_as(t.b.code[at + 8], Opcode::CallNative, base, 4, 0, 2)
            &&& reads_as(t.b.code[at + 9], Opcode::Send, cap, base, 0, 0)
            &&& t.next_reg == cap + 6
        }),
{
}

/// A loop begins with the comparison of counter and limit; where it does not
/// hold the branch behind it leads past the loop, and the jump at the end leads
/// back to the comparison.
pub proof fn loops_go_round(f: FnView, counter: u8, limit: u8, g: FnView)
    requires
        f.has_room(1),
        f.b.next_label + 2 <= u32::MAX,
        f.b.code.len() < u32::MAX,
        g.b.code.len() < u32::MAX,
    ensures
        ({
            let h = loop_head(f, counter, limit);
            let at = f.b.code.len() as int;
            let cond = f.next_reg as int;
            let head = f.b.next_label;
            &&& appends(f, h, 2)
            &&& h.b.next_label == head + 2
            &&& h.next_reg == cond + 1
            &&& h.b.targets.dom().contains(head)
            &&& h.b.targets[head] == at
            &&& reads_as(h.b.code[at], Opcode::Lt, cond, counter as int, limit as int, 0)
            &&& reads_as(h.b.code[at + 1], Opcode::Branch, cond, 0, 0, 0)
            &&& h.b.pending.len() == f.b.pending.len() + 1
            &&& h.b.pending.last().0 == at + 1
            &&& h.b.pending.last().1 == head + 1
            &&& h.b.targets.dom().contains((head + 1) as u32) == f.b.targets.dom().contains(
                (head + 1) as u32,
            )
        }),
        ({
            let head = f.b.next_label;
            let t = loop_tail(g, head);
            let end = g.b.code.len() as int;
            &&& appends(g, t, 1)
            &&& reads_as(t.b.code[end], Opcode::Jump, 0, 0, 0, 0)
            &&& t.b.pending.len() == g.b.pending.len() + 1
            &&& t.b.pending.last().0 == end
            &&& t.b.pending.last().1 == head
            &&& t.b.targets.dom().contains((head + 1) as u32)
            &&& t.b.targets[(head + 1) as u32] == end + 1
            &&& t.b.targets[head] == g.b.targets[head]
            &&& t.next_reg == g.next_reg
        }),
{
}

} // verus!
