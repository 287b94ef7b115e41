//! What each instruction does to registers, frames and the run.

use vstd::arithmetic::div_mod::{lemma_fundamental_div_mod, lemma_mod_bound};
use vstd::prelude::*;

use super::fault::{Fault, FaultView};
use super::frame::FrameView;
use super::laws::gathered_registers_are_consecutive;
use super::machine::{resumed, served, started, Vm};
use super::native::{NativeFn, NativeResult};
use super::result::{FloatOp, VmResultView};
use super::semantics::{after, gather, run, step, Outcome, VmView};
use crate::bytecode::chunk::Chunk;
use crate::bytecode::instruction::Instruction;
use crate::bytecode::opcode::{ExtOpcode, Op, Opcode};
use crate::bytecode::value::{Message, Value};

verus! {

/// `i` is the instruction that the next step executes.
pub open spec fn fetches(vm: VmView, i: Instruction) -> bool {
    &&& vm.frames.len() > 0
    &&& vm.frames.last().pc < vm.chunk.code@.len()
    &&& vm.chunk.code@[vm.frames.last().pc as int] == i
}

/// The registers of the running function.
pub open spec fn regs(vm: VmView) -> Seq<Value> {
    vm.frames.last().registers
}

/// The run goes on at the next instruction. Register `reg` of the running
/// function holds `v`; no other register and no other frame changed.
pub open spec fn writes(vm: VmView, o: Outcome, reg: u8, v: Value) -> bool {
    let top = o.frames.last();
    &&& o.stop is None
    &&& o.frames.len() == vm.frames.len()
    &&& forall|k: int| 0 <= k < vm.frames.len() - 1 ==> #[trigger] o.frames[k] == vm.frames[k]
    &&& top.function == vm.frames.last().function
    &&& top.dest_reg == vm.frames.last().dest_reg
    &&& top.pc == vm.frames.last().pc + 1
    &&& top.registers.len() == regs(vm).len()
    &&& reg < regs(vm).len()
    &&& top.registers[reg as int] == v
    &&& forall|r: int|
        0 <= r < regs(vm).len() && r != reg ==> #[trigger] top.registers[r] == regs(vm)[r]
}

/// No register and no frame changed, but that the running function stands at
/// `pc`.
pub open spec fn stands_at(vm: VmView, o: Outcome, pc: int) -> bool {
    let top = o.frames.last();
    &&& o.frames.len() == vm.frames.len()
    &&& forall|k: int| 0 <= k < vm.frames.len() - 1 ==> #[trigger] o.frames[k] == vm.frames[k]
    &&& top.function == vm.frames.last().function
    &&& top.dest_reg == vm.frames.last().dest_reg
    &&& top.registers == regs(vm)
    &&& top.pc == pc
}

/// The run stops for `r`, behind the instruction, with every register as it
/// was.
pub open spec fn stops_for(vm: VmView, o: Outcome, r: VmResultView) -> bool {
    o.stop == Some(r) && stands_at(vm, o, vm.frames.last().pc + 1)
}

/// The run ends in a fault, with every register as it was.
pub open spec fn faults(vm: VmView, o: Outcome) -> bool {
    (o.stop matches Some(VmResultView::Trap(_))) && stands_at(vm, o, vm.frames.last().pc + 1)
}

proof fn code_is_indexed(vm: VmView)
    ensures
        vm.chunk.code@.len() <= usize::MAX,
{
    assert(vm.chunk.code@.len() == vm.chunk.code.len());
}

// ---- values in registers ------------------------------------------------

/// `LoadImm` puts the number that it carries into its register.
pub proof fn load_imm_loads(vm: VmView, i: Instruction)
    requires
        fetches(vm, i),
        i.op == Op::Core(Opcode::LoadImm),
        i.a < regs(vm).len(),
    ensures
        exists|n: i64| n == i.imm && #[trigger] writes(vm, step(vm), i.a, Value::Int(n)),
{
    code_is_indexed(vm);
    let n = i.imm as i64;
    assert(writes(vm, step(vm), i.a, Value::Int(n)));
}

/// `LoadConst` copies the constant with the index that it carries.
pub proof fn load_const_loads(vm: VmView, i: Instruction)
    requires
        fetches(vm, i),
        i.op == Op::Core(Opcode::LoadConst),
        i.a < regs(vm).len(),
    ensures
        0 <= i.imm < vm.chunk.constants@.len() ==> writes(
            vm,
            step(vm),
            i.a,
            vm.chunk.constants@[i.imm as int],
        ),
        i.imm >= vm.chunk.constants@.len() ==> faults(vm, step(vm)) && (step(
            vm,
        ).stop matches Some(VmResultView::Trap(FaultView::Plain(Fault::BadConstant { index, .. })))
            && index == i.imm),
{
    code_is_indexed(vm);
}

/// `Move` copies one register into another.
pub proof fn move_copies(vm: VmView, i: Instruction)
    requires
        fetches(vm, i),
        i.op == Op::Core(Opcode::Move),
        i.a < regs(vm).len(),
        i.b < regs(vm).len(),
    ensures
        writes(vm, step(vm), i.a, regs(vm)[i.b as int]),
{
    code_is_indexed(vm);
}

/// `Nop` does nothing but step on.
pub proof fn nop_steps_on(vm: VmView, i: Instruction)
    requires
        fetches(vm, i),
        i.op == Op::Core(Opcode::Nop),
    ensures
        step(vm).stop is None,
        stands_at(vm, step(vm), vm.frames.last().pc + 1),
{
    code_is_indexed(vm);
}

/// An operation that names a register which the frame does not have is a fault
/// that names the register and the size of the frame.
pub proof fn missing_register_faults(vm: VmView, i: Instruction)
    requires
        fetches(vm, i),
        regs(vm).len() <= u8::MAX,
    ensures
        (i.op == Op::Core(Opcode::LoadImm) || i.op == Op::Core(Opcode::Return) || i.op == Op::Core(
            Opcode::Exit,
        ) || i.op == Op::Core(Opcode::Branch) || i.op == Op::Core(Opcode::Sleep)) && i.a >= regs(
            vm,
        ).len() ==> faults(vm, step(vm)) && (step(vm).stop matches Some(
            VmResultView::Trap(FaultView::Plain(Fault::RegisterOutOfRange { reg, frame_size })),
        ) && reg == i.a && frame_size == regs(vm).len()),
        (i.op == Op::Core(Opcode::Move) || i.op == Op::Core(Opcode::Add) || i.op == Op::Core(
            Opcode::Neg,
        ) || i.op == Op::Ext(ExtOpcode::Ask)) && i.b >= regs(vm).len() ==> faults(vm, step(vm)) && (
        step(vm).stop matches Some(
            VmResultView::Trap(FaultView::Plain(Fault::RegisterOutOfRange { reg, frame_size })),
        ) && reg == i.b && frame_size == regs(vm).len()),
{
    code_is_indexed(vm);
}

// ---- arithmetic ---------------------------------------------------------

/// The integer in the result register after a step.
pub open spec fn int_result(vm: VmView, i: Instruction) -> int {
    match step(vm).frames.last().registers[i.a as int] {
        Value::Int(r) => r as int,
        _ => 0,
    }
}

/// An operation on two integers whose result has a register.
pub open spec fn on_ints(vm: VmView, i: Instruction, op: Opcode, x: i64, y: i64) -> bool {
    &&& fetches(vm, i)
    &&& i.op == Op::Core(op)
    &&& i.a < regs(vm).len()
    &&& i.b < regs(vm).len()
    &&& i.c < regs(vm).len()
    &&& regs(vm)[i.b as int] == Value::Int(x)
    &&& regs(vm)[i.c as int] == Value::Int(y)
}

/// The step writes an integer, and nothing else, into the result register.
pub open spec fn writes_int(vm: VmView, i: Instruction) -> bool {
    exists|r: i64| #[trigger] writes(vm, step(vm), i.a, Value::Int(r))
}

/// Sums, differences and products of integers are exact, up to a multiple of
/// 2^64 where the exact one does not fit.
pub proof fn arithmetic_is_exact(vm: VmView, i: Instruction, x: i64, y: i64)
    ensures
        on_ints(vm, i, Opcode::Add, x, y) ==> writes_int(vm, i) && (int_result(vm, i) - (x + y))
            % 0x1_0000_0000_0000_0000 == 0,
        on_ints(vm, i, Opcode::Sub, x, y) ==> writes_int(vm, i) && (int_result(vm, i) - (x - y))
            % 0x1_0000_0000_0000_0000 == 0,
        on_ints(vm, i, Opcode::Mul, x, y) ==> writes_int(vm, i) && (int_result(vm, i) - x * y)
            % 0x1_0000_0000_0000_0000 == 0,
        on_ints(vm, i, Opcode::Add, x, y) && i64::MIN <= x + y <= i64::MAX ==> int_result(vm, i)
            == x + y,
        on_ints(vm, i, Opcode::Sub, x, y) && i64::MIN <= x - y <= i64::MAX ==> int_result(vm, i)
            == x - y,
        on_ints(vm, i, Opcode::Mul, x, y) && i64::MIN <= x * y <= i64::MAX ==> int_result(vm, i)
            == x * y,
{
    code_is_indexed(vm);
    if on_ints(vm, i, Opcode::Add, x, y) {
        assert(writes(vm, step(vm), i.a, Value::Int(x.wrapping_add(y))));
    }
    if on_ints(vm, i, Opcode::Sub, x, y) {
        assert(writes(vm, step(vm), i.a, Value::Int(x.wrapping_sub(y))));
    }
    if on_ints(vm, i, Opcode::Mul, x, y) {
        assert(writes(vm, step(vm), i.a, Value::Int(x.wrapping_mul(y))));
        product_wraps(x, y);
    }
}

proof fn product_wraps(x: i64, y: i64)
    ensures
        (x.wrapping_mul(y) - x * y) % 0x1_0000_0000_0000_0000 == 0,
        i64::MIN <= x * y <= i64::MAX ==> x.wrapping_mul(y) == x * y,
{
    let p = x * y;
    let m = 0x1_0000_0000_0000_0000int;
    lemma_fundamental_div_mod(p, m);
    lemma_mod_bound(p, m);
}

/// A step on integers whose quotient fits finds the quotient that is rounded
/// toward zero, and the remainder that goes with it has the sign of the
/// dividend.
pub proof fn division_rounds_toward_zero(q: VmView, r: VmView, i: Instruction, j: Instruction, x: i64, y: i64)
    requires
        on_ints(q, i, Opcode::Div, x, y),
        on_ints(r, j, Opcode::Mod, x, y),
        y != 0,
    ensures
        writes_int(q, i),
        writes_int(r, j),
        !(x == i64::MIN && y == -1) ==> {
            &&& int_result(q, i) * y + int_result(r, j) == x
            &&& y > 0 ==> -y < int_result(r, j) < y
            &&& y < 0 ==> y < int_result(r, j) < -y
            &&& x >= 0 ==> int_result(r, j) >= 0
            &&& x <= 0 ==> int_result(r, j) <= 0
        },
        x == i64::MIN && y == -1 ==> int_result(q, i) == i64::MIN && int_result(r, j) == 0,
{
    code_is_indexed(q);
    code_is_indexed(r);
    let a = super::semantics::int_div(x, y);
    let b = super::semantics::int_rem(x, y);
    assert(writes(q, step(q), i.a, Value::Int(a)));
    assert(writes(r, step(r), j.a, Value::Int(b)));
    quotients_fit(x, y);
}

proof fn quotients_fit(x: i64, y: i64)
    requires
        y != 0,
    ensures
        ({
            let a = super::semantics::int_div(x, y);
            let b = super::semantics::int_rem(x, y);
            if x == i64::MIN && y == -1 {
                a == i64::MIN && b == 0
            } else {
                &&& a * y + b == x
                &&& y > 0 ==> -y < b < y
                &&& y < 0 ==> y < b < -y
                &&& x >= 0 ==> b >= 0
                &&& x <= 0 ==> b <= 0
            }
        }),
{
    let n = if x < 0 {
        -(x as int)
    } else {
        x as int
    };
    let d = if y < 0 {
        -(y as int)
    } else {
        y as int
    };
    let k = n / d;
    let m = n % d;
    lemma_fundamental_div_mod(n, d);
    lemma_mod_bound(n, d);
    assert(n == d * k + m);
    assert(0 <= k <= n) by (nonlinear_arith)
        requires
            n == d * k + m,
            0 <= m < d,
            n >= 0,
            d >= 1,
    ;
    if d >= 2 {
        assert(k <= 0x7FFF_FFFF_FFFF_FFFF) by (nonlinear_arith)
            requires
                n == d * k + m,
                0 <= m,
                n <= 0x8000_0000_0000_0000,
                d >= 2,
                k >= 0,
        ;
    }
    assert(d * k == k * d && (-k) * d == -(k * d) && k * (-d) == -(k * d) && (-k) * (-d) == k * d)
        by (nonlinear_arith);
    if d == 1 {
        assert(k == n && m == 0) by (nonlinear_arith)
            requires
                n == d * k + m,
                0 <= m < d,
                d == 1,
        ;
    }
}

/// Division and remainder by zero are faults.
pub proof fn division_by_zero_faults(vm: VmView, i: Instruction, x: i64)
    requires
        on_ints(vm, i, Opcode::Div, x, 0) || on_ints(vm, i, Opcode::Mod, x, 0),
    ensures
        stops_for(vm, step(vm), VmResultView::Trap(FaultView::Plain(Fault::DivideByZero))),
{
    code_is_indexed(vm);
}

/// Comparisons of integers are those of the numbers.
pub proof fn comparisons_compare(vm: VmView, i: Instruction, x: i64, y: i64)
    ensures
        on_ints(vm, i, Opcode::Eq, x, y) ==> writes(vm, step(vm), i.a, Value::Bool(x == y)),
        on_ints(vm, i, Opcode::Lt, x, y) ==> writes(vm, step(vm), i.a, Value::Bool(x < y)),
        on_ints(vm, i, Opcode::Le, x, y) ==> writes(vm, step(vm), i.a, Value::Bool(x <= y)),
{
    code_is_indexed(vm);
}

/// The negative of an integer and the integer add up to zero, up to a multiple
/// of 2^64; negating a floating-point number flips its sign bit and no other.
pub proof fn negation_negates(vm: VmView, i: Instruction)
    requires
        fetches(vm, i),
        i.op == Op::Core(Opcode::Neg),
        i.a < regs(vm).len(),
        i.b < regs(vm).len(),
    ensures
        regs(vm)[i.b as int] matches Value::Int(x) ==> {
            &&& writes_int(vm, i)
            &&& (int_result(vm, i) + x) % 0x1_0000_0000_0000_0000 == 0
            &&& x > i64::MIN ==> int_result(vm, i) == -x
        },
        regs(vm)[i.b as int] matches Value::Float(x) ==> exists|y: u64|
            {
                &&& #[trigger] writes(vm, step(vm), i.a, Value::Float(y))
                &&& y & 0x7FFF_FFFF_FFFF_FFFF == x & 0x7FFF_FFFF_FFFF_FFFF
                &&& (y >= 0x8000_0000_0000_0000) != (x >= 0x8000_0000_0000_0000)
            },
        !(regs(vm)[i.b as int] is Int) && !(regs(vm)[i.b as int] is Float) ==> faults(vm, step(vm)),
{
    code_is_indexed(vm);
    match regs(vm)[i.b as int] {
        Value::Int(x) => {
            assert(writes(vm, step(vm), i.a, Value::Int(0i64.wrapping_sub(x))));
        },
        Value::Float(x) => {
            let y = x ^ 0x8000_0000_0000_0000;
            assert(y & 0x7FFF_FFFF_FFFF_FFFF == x & 0x7FFF_FFFF_FFFF_FFFF && (y
                >= 0x8000_0000_0000_0000) != (x >= 0x8000_0000_0000_0000)) by (bit_vector)
                requires
                    y == x ^ 0x8000_0000_0000_0000,
            ;
            assert(writes(vm, step(vm), i.a, Value::Float(y)));
        },
        _ => {},
    }
}

/// The host's operation that goes with an operation on numbers.
pub open spec fn host_op(op: Opcode, f: FloatOp) -> bool {
    ||| op == Opcode::Add && f == FloatOp::Add
    ||| op == Opcode::Sub && f == FloatOp::Sub
    ||| op == Opcode::Mul && f == FloatOp::Mul
    ||| op == Opcode::Div && f == FloatOp::Div
    ||| op == Opcode::Lt && f == FloatOp::Lt
    ||| op == Opcode::Le && f == FloatOp::Le
}

/// An operation on two numbers of which one is not an integer is the host's, on
/// these very numbers in this order; on anything else than numbers it is a
/// fault.
pub proof fn other_numbers_are_the_hosts(vm: VmView, i: Instruction, op: Opcode, f: FloatOp)
    requires
        fetches(vm, i),
        i.op == Op::Core(op),
        host_op(op, f),
        i.b < regs(vm).len(),
        i.c < regs(vm).len(),
        !(regs(vm)[i.b as int] is Int) || !(regs(vm)[i.c as int] is Int),
    ensures
        ({
            let (x, y) = (regs(vm)[i.b as int], regs(vm)[i.c as int]);
            if (x is Int || x is Float) && (y is Int || y is Float) {
                stops_for(vm, step(vm), VmResultView::Float { op: f, lhs: x, rhs: y, dest_reg: i.a })
            } else {
                faults(vm, step(vm))
            }
        }),
{
    code_is_indexed(vm);
}

/// Two values of different kinds are not equal, and two of one kind are if and
/// only if they hold the same. Of floating-point numbers, one whose exponent is
/// all ones and whose fraction is not zero equals none, and the two zeros are
/// equal.
pub proof fn equality_is_by_content(vm: VmView, i: Instruction)
    requires
        fetches(vm, i),
        i.op == Op::Core(Opcode::Eq),
        i.a < regs(vm).len(),
        i.b < regs(vm).len(),
        i.c < regs(vm).len(),
    ensures
        exists|same: bool|
            {
                let (x, y) = (regs(vm)[i.b as int], regs(vm)[i.c as int]);
                &&& #[trigger] writes(vm, step(vm), i.a, Value::Bool(same))
                &&& same <==> {
                    ||| x is Unit && y is Unit
                    ||| x is Bool && y is Bool && x->Bool_0 == y->Bool_0
                    ||| x is Int && y is Int && x->Int_0 == y->Int_0
                    ||| x is Float && y is Float && same_number(x->Float_0, y->Float_0)
                    ||| x is Pid && y is Pid && x->Pid_0 == y->Pid_0
                    ||| x is Message && y is Message && x->Message_0 == y->Message_0
                    ||| x is Cap && y is Cap && x->Cap_0 == y->Cap_0
                    ||| x is Str && y is Str && x->Str_0@ == y->Str_0@
                    ||| x is Bytes && y is Bytes && x->Bytes_0@ == y->Bytes_0@
                }
            },
{
    code_is_indexed(vm);
    let (x, y) = (regs(vm)[i.b as int], regs(vm)[i.c as int]);
    match (x, y) {
        (Value::Float(p), Value::Float(q)) => numbers_agree(p, q),
        _ => {},
    }
    let same = crate::bytecode::value::value_eq(x, y);
    assert(writes(vm, step(vm), i.a, Value::Bool(same)));
}

/// Not a number: the exponent is all ones and the fraction is not zero.
pub open spec fn no_number(x: u64) -> bool {
    (x >> 52) & 0x7FF == 0x7FF && x & 0xF_FFFF_FFFF_FFFF != 0
}

/// Two patterns are the same number: they are one pattern of a number, or the
/// two zeros.
pub open spec fn same_number(x: u64, y: u64) -> bool {
    &&& !no_number(x)
    &&& !no_number(y)
    &&& x == y || (x << 1 == 0 && y << 1 == 0)
}

proof fn numbers_agree(p: u64, q: u64)
    ensures
        crate::bytecode::value::float_eq(p, q) == same_number(p, q),
{
    number_bits(p);
    number_bits(q);
}

proof fn number_bits(x: u64)
    ensures
        ((x & 0x7FFF_FFFF_FFFF_FFFF) > 0x7FF0_0000_0000_0000) == no_number(x),
        ((x & 0x7FFF_FFFF_FFFF_FFFF) == 0) == (x << 1 == 0),
{
    assert(((x & 0x7FFF_FFFF_FFFF_FFFF) > 0x7FF0_0000_0000_0000) <==> ((x >> 52) & 0x7FF == 0x7FF && x
        & 0xF_FFFF_FFFF_FFFF != 0)) by (bit_vector);
    assert(((x & 0x7FFF_FFFF_FFFF_FFFF) == 0) <==> (x << 1 == 0)) by (bit_vector);
}

// ---- control ------------------------------------------------------------

/// What a branch takes for false.
pub open spec fn falsy(v: Value) -> bool {
    ||| v is Unit
    ||| v == Value::Bool(false)
    ||| v == Value::Int(0)
    ||| v is Str && v->Str_0@.len() == 0
    ||| v is Bytes && v->Bytes_0@.len() == 0
}

/// A jump goes on as far from the next instruction as it says.
pub proof fn jump_jumps(vm: VmView, i: Instruction)
    requires
        fetches(vm, i),
        i.op == Op::Core(Opcode::Jump),
        0 <= vm.frames.last().pc + 1 + i.imm <= usize::MAX,
    ensures
        step(vm).stop is None,
        stands_at(vm, step(vm), vm.frames.last().pc + 1 + i.imm),
{
    code_is_indexed(vm);
}

/// A branch jumps on what is false: unit, `false`, zero, the empty text and the
/// empty buffer. On everything else it steps on.
pub proof fn branch_jumps_on_false(vm: VmView, i: Instruction)
    requires
        fetches(vm, i),
        i.op == Op::Core(Opcode::Branch),
        i.a < regs(vm).len(),
        0 <= vm.frames.last().pc + 1 + i.imm <= usize::MAX,
    ensures
        step(vm).stop is None,
        falsy(regs(vm)[i.a as int]) ==> stands_at(
            vm,
            step(vm),
            vm.frames.last().pc + 1 + i.imm,
        ),
        !falsy(regs(vm)[i.a as int]) ==> stands_at(vm, step(vm), vm.frames.last().pc + 1),
{
    code_is_indexed(vm);
}

/// The step enters function `f`: on top of the caller, which stands behind the
/// call with its registers as they were, is a frame at the entry of the
/// function. Its first registers are the caller's `n` registers from `base` on,
/// as many as it has parameters; the others are unit. What it returns goes to
/// register `base`.
pub open spec fn enters(vm: VmView, o: Outcome, f: int, base: int, n: int) -> bool {
    let def = vm.chunk.functions@[f];
    let top = o.frames.last();
    &&& o.stop is None
    &&& o.frames.len() == vm.frames.len() + 1
    &&& forall|k: int| 0 <= k < vm.frames.len() - 1 ==> #[trigger] o.frames[k] == vm.frames[k]
    &&& o.frames[vm.frames.len() - 1].registers == regs(vm)
    &&& o.frames[vm.frames.len() - 1].pc == vm.frames.last().pc + 1
    &&& o.frames[vm.frames.len() - 1].dest_reg == vm.frames.last().dest_reg
    &&& o.frames[vm.frames.len() - 1].function == vm.frames.last().function
    &&& top.function == f
    &&& top.pc == def.entry
    &&& top.dest_reg matches Some(d) && d == base
    &&& top.registers.len() == def.num_registers
    &&& forall|k: int|
        0 <= k < def.num_registers ==> #[trigger] top.registers[k] == (if k < n && k < def.arity {
            regs(vm)[base + k]
        } else {
            Value::Unit
        })
}

/// A call of a function that exists, with arguments in registers that exist,
/// enters it.
pub proof fn call_enters_the_function(vm: VmView, i: Instruction)
    requires
        fetches(vm, i),
        i.op == Op::Core(Opcode::Call),
        vm.frames.len() < 4096,
        0 <= i.imm < vm.chunk.functions@.len(),
        vm.chunk.functions@[i.imm as int].arity <= vm.chunk.functions@[i.imm as int].num_registers,
        i.a + i.b <= regs(vm).len() <= 256,
    ensures
        enters(vm, step(vm), i.imm as int, i.a as int, i.b as int),
{
    code_is_indexed(vm);
    let top = vm.frames.last();
    let fetched = super::semantics::with_top(
        vm.frames,
        FrameView { pc: (top.pc + 1) as usize, ..top },
    );
    gather_succeeds(fetched, i.a, 0, i.b as nat);
    assert forall|k: int| 0 <= k < i.b implies gather(fetched, i.a, 0, i.b as nat)->Ok_0[k] == regs(
        vm,
    )[i.a + k] by {
        gathered_registers_are_consecutive(fetched, i.a, 0, i.b as nat, k);
    }
}

proof fn gather_succeeds(frames: Seq<FrameView>, base: u8, first: nat, n: nat)
    requires
        frames.len() > 0,
        n > 0 ==> base + first + n <= frames.last().registers.len() <= 256,
    ensures
        gather(frames, base, first, n) is Ok,
        gather(frames, base, first, n)->Ok_0.len() == n,
    decreases n,
{
    if n > 0 {
        gather_succeeds(frames, base, first, (n - 1) as nat);
    }
}

/// A call of a function that does not exist and a call in a full stack are
/// faults.
pub proof fn impossible_call_faults(vm: VmView, i: Instruction)
    requires
        fetches(vm, i),
        i.op == Op::Core(Opcode::Call),
    ensures
        vm.frames.len() >= 4096 ==> faults(vm, step(vm)) && (step(vm).stop matches Some(
            VmResultView::Trap(FaultView::Plain(Fault::CallStackOverflow { .. })),
        )),
        vm.frames.len() < 4096 && i.imm >= vm.chunk.functions@.len() ==> faults(vm, step(vm)) && (
        step(vm).stop matches Some(
            VmResultView::Trap(FaultView::Plain(Fault::BadFunction { index, .. })),
        ) && index == i.imm),
{
    code_is_indexed(vm);
}

/// The run goes on in the caller, where the innermost frame is gone. The
/// register that the call named for the result holds `v`; no other register,
/// and not the place where the caller stands, changed.
pub open spec fn hands_back(vm: VmView, o: Outcome, v: Value) -> bool {
    let caller = vm.frames[vm.frames.len() - 2];
    let dest = vm.frames.last().dest_reg;
    let top = o.frames.last();
    &&& o.stop is None
    &&& o.frames.len() == vm.frames.len() - 1
    &&& forall|k: int| 0 <= k < vm.frames.len() - 2 ==> #[trigger] o.frames[k] == vm.frames[k]
    &&& top.pc == caller.pc
    &&& top.function == caller.function
    &&& top.dest_reg == caller.dest_reg
    &&& top.registers.len() == caller.registers.len()
    &&& dest is Some
    &&& top.registers[dest.unwrap() as int] == v
    &&& forall|r: int|
        0 <= r < caller.registers.len() && r != dest.unwrap() ==> #[trigger] top.registers[r]
            == caller.registers[r]
}

/// `Return` of a function that was called hands the value of its register to
/// the caller.
pub proof fn return_hands_back(vm: VmView, i: Instruction)
    requires
        fetches(vm, i),
        i.op == Op::Core(Opcode::Return),
        i.a < regs(vm).len(),
        vm.frames.len() >= 2,
        vm.frames.last().dest_reg matches Some(d) && d < vm.frames[vm.frames.len()
            - 2].registers.len(),
    ensures
        hands_back(vm, step(vm), regs(vm)[i.a as int]),
{
    code_is_indexed(vm);
}

/// A function that runs off its end returns unit.
pub proof fn running_off_returns_unit(vm: VmView)
    requires
        vm.frames.len() > 0,
        vm.frames.last().pc >= vm.chunk.code@.len(),
    ensures
        vm.frames.len() >= 2 && (vm.frames.last().dest_reg matches Some(d) && d
            < vm.frames[vm.frames.len() - 2].registers.len()) ==> hands_back(
            vm,
            step(vm),
            Value::Unit,
        ),
        vm.frames.last().dest_reg is None ==> step(vm).stop == Some(
            VmResultView::Complete(Value::Unit),
        ),
{
}

/// What a function returns to nobody is the result of the flow. So is what
/// `Exit` names, and what register 0 holds at `Halt`.
pub proof fn results_complete_the_flow(vm: VmView, i: Instruction)
    requires
        fetches(vm, i),
    ensures
        i.op == Op::Core(Opcode::Return) && i.a < regs(vm).len() && vm.frames.last().dest_reg is None
            ==> step(vm).stop == Some(VmResultView::Complete(regs(vm)[i.a as int])),
        i.op == Op::Core(Opcode::Exit) && i.a < regs(vm).len() ==> stops_for(
            vm,
            step(vm),
            VmResultView::Complete(regs(vm)[i.a as int]),
        ),
        i.op == Op::Core(Opcode::Halt) && regs(vm).len() > 0 ==> stops_for(
            vm,
            step(vm),
            VmResultView::Complete(regs(vm)[0]),
        ),
{
    code_is_indexed(vm);
}

/// A function that returns at once what it was called with, called on a
/// register, leaves the register as it was: call and return undo each other.
pub proof fn call_of_identity_changes_nothing(vm: VmView, i: Instruction)
    requires
        fetches(vm, i),
        i.op == Op::Core(Opcode::Call),
        i.b == 1,
        vm.frames.len() < 4096,
        0 <= i.imm < vm.chunk.functions@.len(),
        i.a < regs(vm).len() <= 256,
        ({
            let def = vm.chunk.functions@[i.imm as int];
            &&& def.arity == 1
            &&& def.num_registers >= 1
            &&& def.entry < vm.chunk.code@.len()
            &&& vm.chunk.code@[def.entry as int].op == Op::Core(Opcode::Return)
            &&& vm.chunk.code@[def.entry as int].a == 0
        }),
    ensures
        step(vm).stop is None,
        step(after(vm, step(vm))).stop is None,
        stands_at(vm, step(after(vm, step(vm))), vm.frames.last().pc + 1),
{
    code_is_indexed(vm);
    call_enters_the_function(vm, i);
    let inner = after(vm, step(vm));
    let ret = vm.chunk.code@[vm.chunk.functions@[i.imm as int].entry as int];
    assert(inner.frames.last().registers[0] == regs(vm)[i.a as int]);
    return_hands_back(inner, ret);
    let o = step(inner);
    assert(o.frames.last().registers =~= regs(vm));
}

// ---- what stops a run ---------------------------------------------------

/// `Yield`, `Trap` and the operations that name one register only stop the run
/// for what they name.
pub proof fn plain_stops(vm: VmView, i: Instruction)
    requires
        fetches(vm, i),
    ensures
        i.op == Op::Core(Opcode::Yield) ==> stops_for(vm, step(vm), VmResultView::Yield),
        i.op == Op::Core(Opcode::Trap) ==> stops_for(
            vm,
            step(vm),
            VmResultView::Trap(FaultView::Plain(Fault::Explicit(i.imm))),
        ),
        i.op == Op::Core(Opcode::SelfPid) ==> stops_for(
            vm,
            step(vm),
            VmResultView::SelfPid { dest_reg: i.a },
        ),
        i.op == Op::Core(Opcode::Receive) ==> stops_for(
            vm,
            step(vm),
            VmResultView::Receive { dest_reg: i.a, timeout: None, match_tag: None },
        ),
        i.op == Op::Ext(ExtOpcode::Demonitor) ==> stops_for(
            vm,
            step(vm),
            VmResultView::Demonitor { monitor_reg: i.a },
        ),
        i.op == Op::Ext(ExtOpcode::Unlink) ==> stops_for(
            vm,
            step(vm),
            VmResultView::Unlink { link_reg: i.a },
        ),
{
    code_is_indexed(vm);
}

/// `Sleep` stops the run for as many milliseconds as its register says: a number
/// that is not negative, or a truth value for 0 and 1. Anything else is a fault.
pub proof fn sleep_sleeps(vm: VmView, i: Instruction)
    requires
        fetches(vm, i),
        i.op == Op::Core(Opcode::Sleep),
        i.a < regs(vm).len(),
    ensures
        match regs(vm)[i.a as int] {
            Value::Int(n) => if n >= 0 {
                step(vm).stop matches Some(VmResultView::Sleep(ms)) && ms == n && stands_at(
                    vm,
                    step(vm),
                    vm.frames.last().pc + 1,
                )
            } else {
                faults(vm, step(vm))
            },
            Value::Bool(b) => stops_for(
                vm,
                step(vm),
                VmResultView::Sleep(
                    if b {
                        1
                    } else {
                        0
                    },
                ),
            ),
            _ => faults(vm, step(vm)),
        },
{
    code_is_indexed(vm);
}

/// `Send` stops the run with the capability and the message of its registers.
pub proof fn send_sends_what_it_names(vm: VmView, i: Instruction)
    requires
        fetches(vm, i),
        i.op == Op::Core(Opcode::Send),
        i.a < regs(vm).len(),
        i.b < regs(vm).len(),
    ensures
        regs(vm)[i.b as int] is Message ==> (regs(vm)[i.a as int] matches Value::Cap(c)
            ==> stops_for(
            vm,
            step(vm),
            VmResultView::Send { target_cap: c, message: regs(vm)[i.b as int] },
        )),
        !(regs(vm)[i.a as int] is Cap) || !(regs(vm)[i.b as int] is Message) ==> faults(
            vm,
            step(vm),
        ),
{
    code_is_indexed(vm);
}

/// How long a register lets a wait last: a number that is not negative, or a
/// truth value for 0 and 1; everything else is no time at all.
pub open spec fn limit_in(v: Value) -> int {
    if v is Int && v->Int_0 >= 0 {
        v->Int_0 as int
    } else if v == Value::Bool(true) {
        1
    } else {
        0
    }
}

/// A receive waits for any message or for those with a tag, without a limit or
/// with the one in its register.
pub proof fn receive_waits_as_it_says(vm: VmView, i: Instruction)
    requires
        fetches(vm, i),
    ensures
        i.op == Op::Core(Opcode::ReceiveTimeout) && i.b < regs(vm).len() ==> {
            &&& step(vm).stop matches Some(
                VmResultView::Receive { dest_reg, timeout: Some(ms), match_tag: None },
            ) && dest_reg == i.a && ms == limit_in(regs(vm)[i.b as int])
            &&& stands_at(vm, step(vm), vm.frames.last().pc + 1)
        },
        i.op == Op::Ext(ExtOpcode::ReceiveMatch) && i.b < regs(vm).len() ==> match regs(
            vm,
        )[i.b as int] {
            Value::Int(n) => if 0 <= n <= 0xFFFF {
                step(vm).stop matches Some(
                    VmResultView::Receive { dest_reg, timeout: None, match_tag: Some(tag) },
                ) && dest_reg == i.a && tag == n && stands_at(vm, step(vm), vm.frames.last().pc + 1)
            } else {
                faults(vm, step(vm))
            },
            Value::Bool(b) => step(vm).stop matches Some(
                VmResultView::Receive { dest_reg, timeout: None, match_tag: Some(tag) },
            ) && dest_reg == i.a && tag == (if b {
                1int
            } else {
                0int
            }),
            _ => faults(vm, step(vm)),
        },
        i.op == Op::Ext(ExtOpcode::ReceiveMatchImm) ==> if 0 <= i.imm <= 0xFFFF {
            step(vm).stop matches Some(
                VmResultView::Receive { dest_reg, timeout: None, match_tag: Some(tag) },
            ) && dest_reg == i.a && tag == i.imm && stands_at(
                vm,
                step(vm),
                vm.frames.last().pc + 1,
            )
        } else {
            faults(vm, step(vm))
        },
{
    code_is_indexed(vm);
}

/// An ask stops the run with the capability and the request of its registers,
/// without a limit or with the one in the register that it names.
pub proof fn ask_asks_what_it_names(vm: VmView, i: Instruction)
    requires
        fetches(vm, i),
        i.b < regs(vm).len(),
        i.c < regs(vm).len(),
    ensures
        ({
            let (cap, request) = (regs(vm)[i.b as int], regs(vm)[i.c as int]);
            &&& i.op == Op::Ext(ExtOpcode::Ask) ==> {
                &&& cap is Cap && request is Message ==> stops_for(
                    vm,
                    step(vm),
                    VmResultView::Ask {
                        dest_reg: i.a,
                        target_cap: cap->Cap_0,
                        request,
                        timeout: None,
                    },
                )
                &&& !(cap is Cap && request is Message) ==> faults(vm, step(vm))
            }
            &&& i.op == Op::Ext(ExtOpcode::AskTimeout) && 0 <= i.imm <= 255 && i.imm < regs(vm).len()
                ==> {
                &&& cap is Cap && request is Message ==> {
                    &&& stands_at(vm, step(vm), vm.frames.last().pc + 1)
                    &&& step(vm).stop matches Some(
                        VmResultView::Ask { dest_reg, target_cap, request: r, timeout: Some(ms) },
                    ) && dest_reg == i.a && target_cap == cap->Cap_0 && r == request && ms
                        == limit_in(regs(vm)[i.imm as int])
                }
                &&& !(cap is Cap && request is Message) ==> faults(vm, step(vm))
            }
        }),
{
    code_is_indexed(vm);
}

/// `Monitor` and `Link` stop the run with the capability of their register;
/// anything else in it is a fault.
pub proof fn relations_name_a_capability(vm: VmView, i: Instruction)
    requires
        fetches(vm, i),
        i.b < regs(vm).len(),
        i.op == Op::Ext(ExtOpcode::Monitor) || i.op == Op::Ext(ExtOpcode::Link),
    ensures
        regs(vm)[i.b as int] matches Value::Cap(c) ==> stops_for(
            vm,
            step(vm),
            if i.op == Op::Ext(ExtOpcode::Monitor) {
                VmResultView::Monitor { dest_reg: i.a, target_cap: c }
            } else {
                VmResultView::Link { dest_reg: i.a, target_cap: c }
            },
        ),
        !(regs(vm)[i.b as int] is Cap) ==> faults(vm, step(vm)),
{
    code_is_indexed(vm);
}

/// `Delegate` stops the run with the capability to narrow, the rights that are
/// asked for, bit by bit, and the capability that stands for a native mask
/// unless its register is 255.
pub proof fn delegate_names_what_it_narrows(vm: VmView, i: Instruction)
    requires
        fetches(vm, i),
        i.op == Op::Ext(ExtOpcode::Delegate),
        i.b < regs(vm).len(),
        i.c == 255 || i.c < regs(vm).len(),
    ensures
        regs(vm)[i.b as int] matches Value::Cap(c) ==> {
            let masked = i.c != 255;
            if !masked || regs(vm)[i.c as int] is Cap {
                &&& stands_at(vm, step(vm), vm.frames.last().pc + 1)
                &&& step(vm).stop matches Some(
                    VmResultView::Delegate { dest_reg, src_cap, want_rights, want_native_cap },
                ) && {
                    &&& dest_reg == i.a
                    &&& src_cap == c
                    &&& 0 <= i.imm ==> want_rights.bits == i.imm % 16
                    &&& want_native_cap == (if masked {
                        Some(regs(vm)[i.c as int]->Cap_0)
                    } else {
                        None
                    })
                }
            } else {
                faults(vm, step(vm))
            }
        },
        !(regs(vm)[i.b as int] is Cap) ==> faults(vm, step(vm)),
{
    code_is_indexed(vm);
    let bits = i.imm as u32;
    assert((bits & 0x0F) as u8 == bits % 16) by (bit_vector);
}

/// `Spawn` stops the run with the function that it carries, the consecutive
/// registers behind its own as arguments, and the rights of its last operand.
pub proof fn spawn_names_the_child(vm: VmView, i: Instruction)
    requires
        fetches(vm, i),
        i.op == Op::Core(Opcode::Spawn),
        i.b > 0 ==> i.a + 1 + i.b <= regs(vm).len() <= 256,
    ensures
        stands_at(vm, step(vm), vm.frames.last().pc + 1),
        step(vm).stop matches Some(
            VmResultView::Spawn { function, args, dest_reg, requested_rights },
        ) && {
            &&& 0 <= i.imm ==> function == i.imm
            &&& dest_reg == i.a
            &&& requested_rights.bits == i.c % 16
            &&& args.len() == i.b
            &&& forall|k: int| 0 <= k < i.b ==> #[trigger] args[k] == regs(vm)[i.a + 1 + k]
        },
{
    code_is_indexed(vm);
    let top = vm.frames.last();
    let fetched = super::semantics::with_top(
        vm.frames,
        FrameView { pc: (top.pc + 1) as usize, ..top },
    );
    gather_succeeds(fetched, i.a, 1, i.b as nat);
    assert forall|k: int| 0 <= k < i.b implies gather(fetched, i.a, 1, i.b as nat)->Ok_0[k] == regs(
        vm,
    )[i.a + 1 + k] by {
        gathered_registers_are_consecutive(fetched, i.a, 1, i.b as nat, k);
    }
    let c = i.c;
    assert(c & 0x0F == c % 16) by (bit_vector);
}

// ---- natives ------------------------------------------------------------

/// A call of a native slot that does not exist, that is empty or that the native
/// gate does not let through is a fault.
pub proof fn unavailable_native_faults(vm: VmView, i: Instruction)
    requires
        fetches(vm, i),
        i.op == Op::Core(Opcode::CallNative),
        0 <= i.imm,
        vm.gate.len() == vm.natives.len(),
    ensures
        i.imm >= vm.natives.len() ==> faults(vm, step(vm)) && (step(vm).stop matches Some(
            VmResultView::Trap(FaultView::Plain(Fault::BadNative { index, .. })),
        ) && index == i.imm),
        i.imm < vm.natives.len() && !vm.gate[i.imm as int] ==> faults(vm, step(vm)) && (step(
            vm,
        ).stop matches Some(VmResultView::Trap(FaultView::NativeDenied(_)))),
        i.imm < vm.natives.len() && vm.gate[i.imm as int] && vm.natives[i.imm as int] is None
            ==> faults(vm, step(vm)) && (step(vm).stop matches Some(
            VmResultView::Trap(FaultView::Plain(Fault::BadNative { index, .. })),
        ) && index == i.imm),
{
    code_is_indexed(vm);
}

/// The instruction calls native `f`, which the native gate lets through, with
/// arguments in registers that exist.
pub open spec fn calls_native(vm: VmView, i: Instruction, f: NativeFn) -> bool {
    &&& fetches(vm, i)
    &&& i.op == Op::Core(Opcode::CallNative)
    &&& 0 <= i.imm < vm.natives.len()
    &&& vm.gate.len() == vm.natives.len()
    &&& vm.gate[i.imm as int]
    &&& vm.natives[i.imm as int] matches Some((_, g)) && g == f
    &&& i.b > 0 ==> i.a + i.b <= regs(vm).len() <= 256
}

proof fn native_arguments(vm: VmView, i: Instruction, f: NativeFn)
    requires
        calls_native(vm, i, f),
    ensures
        ({
            let top = vm.frames.last();
            let fetched = super::semantics::with_top(
                vm.frames,
                FrameView { pc: (top.pc + 1) as usize, ..top },
            );
            &&& gather(fetched, i.a, 0, i.b as nat) is Ok
            &&& gather(fetched, i.a, 0, i.b as nat)->Ok_0.len() == i.b
            &&& forall|k: int|
                0 <= k < i.b ==> gather(fetched, i.a, 0, i.b as nat)->Ok_0[k] == regs(vm)[i.a + k]
        }),
{
    let top = vm.frames.last();
    let fetched = super::semantics::with_top(
        vm.frames,
        FrameView { pc: (top.pc + 1) as usize, ..top },
    );
    gather_succeeds(fetched, i.a, 0, i.b as nat);
    assert forall|k: int| 0 <= k < i.b implies gather(fetched, i.a, 0, i.b as nat)->Ok_0[k] == regs(
        vm,
    )[i.a + k] by {
        gathered_registers_are_consecutive(fetched, i.a, 0, i.b as nat, k);
    }
}

/// Natives of the host stop the run, with the consecutive registers from the
/// named one on as arguments.
pub proof fn host_natives_are_the_hosts(vm: VmView, i: Instruction, f: NativeFn)
    requires
        calls_native(vm, i, f),
        f is Print || f is NowMs || f is Host,
    ensures
        stands_at(vm, step(vm), vm.frames.last().pc + 1),
        step(vm).stop matches Some(VmResultView::Native { native, args, dest_reg }) && {
            &&& native == f
            &&& dest_reg == i.a
            &&& args.len() == i.b
            &&& forall|k: int| 0 <= k < i.b ==> #[trigger] args[k] == regs(vm)[i.a + k]
        },
{
    code_is_indexed(vm);
    native_arguments(vm, i, f);
}

/// The natives that take a message apart put the field that they are named for
/// into the register that held the message. What is no message is a fault.
pub proof fn message_natives_read_fields(vm: VmView, i: Instruction, f: NativeFn)
    requires
        calls_native(vm, i, f),
        i.b >= 1,
    ensures
        regs(vm)[i.a as int] matches Value::Message(m) ==> {
            &&& f is MsgSender ==> writes(vm, step(vm), i.a, Value::Pid(m.sender))
            &&& f is MsgReplyCap ==> writes(vm, step(vm), i.a, Value::Cap(m.reply_cap))
            &&& f is MsgRequestId ==> writes(vm, step(vm), i.a, Value::Int(m.request_id as i64))
            &&& f is MsgTag ==> exists|n: i64|
                n == m.tag && #[trigger] writes(vm, step(vm), i.a, Value::Int(n))
            &&& f is MsgPayload ==> writes(vm, step(vm), i.a, Value::Int(m.payload as i64))
        },
        !(regs(vm)[i.a as int] is Message) && (f is MsgSender || f is MsgReplyCap || f
            is MsgRequestId || f is MsgTag || f is MsgPayload) ==> faults(vm, step(vm)),
{
    code_is_indexed(vm);
    native_arguments(vm, i, f);
    match regs(vm)[i.a as int] {
        Value::Message(m) => if f is MsgTag {
            let n = m.tag as i64;
            assert(writes(vm, step(vm), i.a, Value::Int(n)));
        },
        _ => {},
    }
}

/// The number that a scalar stands for: that of a pid or a capability, one that
/// is not negative, or a truth value for 0 and 1.
pub open spec fn number_in(v: Value) -> Option<int> {
    match v {
        Value::Pid(n) => Some(n as int),
        Value::Cap(n) => Some(n as int),
        Value::Int(n) => if n >= 0 {
            Some(n as int)
        } else {
            None
        },
        Value::Bool(b) => Some(
            if b {
                1int
            } else {
                0int
            },
        ),
        _ => None,
    }
}

/// `make_msg` makes the message with sender, token, tag and payload of its four
/// arguments, in this order, and without a reply capability. An argument that
/// stands for no number, and a tag that does not fit, are faults.
pub proof fn make_msg_makes(vm: VmView, i: Instruction)
    requires
        calls_native(vm, i, NativeFn::MakeMsg),
        i.b >= 4,
    ensures
        ({
            let n = |k: int| number_in(regs(vm)[i.a + k]);
            if n(0) is Some && n(1) is Some && n(2) is Some && n(3) is Some && n(2).unwrap()
                <= 0xFFFF {
                exists|m: Message|
                    {
                        &&& #[trigger] writes(vm, step(vm), i.a, Value::Message(m))
                        &&& m.sender == n(0).unwrap()
                        &&& m.request_id == n(1).unwrap()
                        &&& m.tag == n(2).unwrap()
                        &&& m.payload == n(3).unwrap()
                        &&& m.reply_cap == 0
                    }
            } else {
                faults(vm, step(vm))
            }
        }),
{
    code_is_indexed(vm);
    native_arguments(vm, i, NativeFn::MakeMsg);
    let n = |k: int| number_in(regs(vm)[i.a + k]);
    if n(0) is Some && n(1) is Some && n(2) is Some && n(3) is Some && n(2).unwrap() <= 0xFFFF {
        let m = Message {
            sender: n(0).unwrap() as u64,
            reply_cap: 0,
            request_id: n(1).unwrap() as u64,
            tag: n(2).unwrap() as u16,
            payload: n(3).unwrap() as u64,
        };
        assert(writes(vm, step(vm), i.a, Value::Message(m)));
    }
}

// ---- the beginning, and answers from outside ----------------------------

/// A VM starts with one frame, at the entry of its function, that returns to
/// nobody. The parameters hold the arguments in order; the other registers are
/// unit. Nothing was executed.
pub proof fn start_loads_the_arguments(
    r: Result<Vm, Fault>,
    chunk: Chunk,
    natives: Seq<Option<(Seq<char>, NativeFn)>>,
    gate: Seq<bool>,
    function: u32,
    args: Seq<Value>,
)
    requires
        started(r, chunk, natives, gate, function, args),
    ensures
        function >= chunk.functions@.len() ==> r is Err && (r->Err_0@ matches FaultView::Plain(
            Fault::BadFunction { index, .. },
        ) && index == function),
        function < chunk.functions@.len() && args.len() <= chunk.functions@[function as int].arity
            <= chunk.functions@[function as int].num_registers ==> (r matches Ok(vm) && {
            let def = chunk.functions@[function as int];
            &&& vm@.chunk == chunk
            &&& vm@.natives == natives
            &&& vm@.gate == gate
            &&& vm@.executed == 0
            &&& vm@.frames.len() == 1
            &&& vm@.frames[0].function == function
            &&& vm@.frames[0].pc == def.entry
            &&& vm@.frames[0].dest_reg is None
            &&& vm@.frames[0].registers.len() == def.num_registers
            &&& forall|k: int|
                0 <= k < def.num_registers ==> #[trigger] vm@.frames[0].registers[k] == (if k
                    < args.len() {
                    args[k]
                } else {
                    Value::Unit
                })
        }),
{
}

/// A value that is delivered from outside lands in the named register of the
/// running function, and changes nothing else. Without that register it is a
/// fault, and nothing changes.
pub proof fn delivery_lands_in_the_register(
    pre: VmView,
    post: VmView,
    r: Result<(), Fault>,
    reg: u8,
    v: Value,
)
    requires
        resumed(pre, post, r, reg, v),
        pre.frames.len() > 0,
    ensures
        reg < regs(pre).len() ==> {
            &&& r is Ok
            &&& lands(pre, post, reg, v)
        },
        reg >= regs(pre).len() ==> r is Err && post == pre,
{
}

/// `v` landed in register `reg` of the running function, and nothing else
/// changed.
pub open spec fn lands(pre: VmView, post: VmView, reg: u8, v: Value) -> bool {
    &&& post.chunk == pre.chunk
    &&& post.natives == pre.natives
    &&& post.gate == pre.gate
    &&& post.executed == pre.executed
    &&& post.frames.len() == pre.frames.len()
    &&& forall|k: int| 0 <= k < pre.frames.len() - 1 ==> #[trigger] post.frames[k] == pre.frames[k]
    &&& post.frames.last().function == pre.frames.last().function
    &&& post.frames.last().pc == pre.frames.last().pc
    &&& post.frames.last().dest_reg == pre.frames.last().dest_reg
    &&& regs(post).len() == regs(pre).len()
    &&& reg < regs(pre).len()
    &&& regs(post)[reg as int] == v
    &&& forall|k: int| 0 <= k < regs(pre).len() && k != reg ==> #[trigger] regs(post)[k] == regs(pre)[k]
}

/// The host's answer to a native call or a floating-point operation lands in the
/// register that the flow named, and the run goes on; a native that fails ends
/// the run with its fault. Anything else ends the run as it is.
pub proof fn host_answers_land<N, F>(
    mid: VmView,
    asked: VmResultView,
    native: N,
    float: F,
    post: VmView,
    end: Option<VmResultView>,
) where
    N: core::ops::Fn(NativeFn, &[Value]) -> NativeResult,
    F: core::ops::Fn(FloatOp, &Value, &Value) -> Value,

    requires
        served(mid, asked, native, float, post, end),
        mid.frames.len() > 0,
    ensures
        asked matches VmResultView::Native { native: f, args, dest_reg } ==> exists|
            given: &[Value],
            answer: NativeResult,
        |
            {
                &&& given@ == args
                &&& #[trigger] call_ensures(native, (f, given), answer)
                &&& match answer {
                    Err(e) => post == mid && end == Some(VmResultView::Trap(e@)),
                    Ok(v) => if dest_reg < regs(mid).len() {
                        end is None && lands(mid, post, dest_reg, v)
                    } else {
                        post == mid && (end matches Some(VmResultView::Trap(_)))
                    },
                }
            },
        asked matches VmResultView::Float { op, lhs, rhs, dest_reg } ==> exists|v: Value|
            {
                &&& #[trigger] call_ensures(float, (op, &lhs, &rhs), v)
                &&& if dest_reg < regs(mid).len() {
                    end is None && lands(mid, post, dest_reg, v)
                } else {
                    post == mid && (end matches Some(VmResultView::Trap(_)))
                }
            },
        !(asked is Native) && !(asked is Float) ==> post == mid && end == Some(asked),
{
}

// ---- whole runs ---------------------------------------------------------

/// The state after `n` steps.
pub open spec fn after_steps(vm: VmView, n: nat) -> VmView
    decreases n,
{
    if n == 0 {
        vm
    } else {
        let before = after_steps(vm, (n - 1) as nat);
        VmView {
            frames: step(before).frames,
            executed: ((before.executed + 1) % 0x1_0000_0000_0000_0000) as u64,
            ..before
        }
    }
}

/// None of the first `n` steps stops the run.
pub open spec fn goes_on(vm: VmView, n: nat) -> bool {
    forall|k: nat| k < n ==> (#[trigger] step(after_steps(vm, k))).stop is None
}

/// A run is its steps, one after the other. It ends behind the first step that
/// stops it, for what that step stops it; if none does within the budget, it
/// yields where the budget is used up.
pub proof fn run_is_its_steps(vm: VmView, budget: nat, n: nat)
    requires
        n <= budget,
        goes_on(vm, n),
    ensures
        n < budget ==> (step(after_steps(vm, n)).stop matches Some(r) ==> run(vm, budget) == (
            after_steps(vm, n + 1),
            r,
        )),
        n == budget ==> run(vm, budget) == (after_steps(vm, n), VmResultView::Yield),
    decreases n,
{
    reveal_with_fuel(after_steps, 2);
    if n == 0 {
        assert(after_steps(vm, 1) == after(vm, step(vm)));
    } else {
        assert(step(after_steps(vm, 0)).stop is None);
        let next = after(vm, step(vm));
        assert forall|k: nat| k < n implies #[trigger] after_steps(next, k) == after_steps(
            vm,
            k + 1,
        ) by {
            steps_shift(vm, k);
        }
        steps_shift(vm, (n - 1) as nat);
        steps_shift(vm, n);
        assert forall|k: nat| k < n - 1 implies (#[trigger] step(after_steps(next, k))).stop
            is None by {
            assert(after_steps(next, k) == after_steps(vm, k + 1));
            assert(step(after_steps(vm, k + 1)).stop is None);
        }
        run_is_its_steps(next, (budget - 1) as nat, (n - 1) as nat);
    }
}

proof fn steps_shift(vm: VmView, k: nat)
    ensures
        after_steps(after(vm, step(vm)), k) == after_steps(vm, k + 1),
    decreases k,
{
    if k == 0 {
        reveal_with_fuel(after_steps, 2);
        assert(after_steps(vm, 1) == after(vm, step(vm)));
    } else {
        steps_shift(vm, (k - 1) as nat);
    }
}

// ---- faults -------------------------------------------------------------

/// The step stops with a fault that names the kind it expected and the kind of
/// `v`.
pub open spec fn refuses(vm: VmView, expected: &'static str, v: Value) -> bool {
    stops_for(
        vm,
        step(vm),
        VmResultView::Trap(
            FaultView::Plain(Fault::TypeMismatch { expected, got: v.spec_type_label() }),
        ),
    )
}

/// Whether an operation takes two numbers.
pub open spec fn takes_numbers(op: Op) -> bool {
    ||| op == Op::Core(Opcode::Add)
    ||| op == Op::Core(Opcode::Sub)
    ||| op == Op::Core(Opcode::Mul)
    ||| op == Op::Core(Opcode::Lt)
    ||| op == Op::Core(Opcode::Le)
}

/// Arithmetic on a value that is no number names it: the first that is none, or
/// for a division the divisor before the dividend. The remainder is for integers
/// alone.
pub proof fn wrong_numbers_are_named(vm: VmView, i: Instruction)
    requires
        fetches(vm, i),
        i.b < regs(vm).len(),
        i.c < regs(vm).len(),
    ensures
        ({
            let (x, y) = (regs(vm)[i.b as int], regs(vm)[i.c as int]);
            let x_is = x is Int || x is Float;
            let y_is = y is Int || y is Float;
            &&& i.op == Op::Core(Opcode::Neg) && !x_is ==> refuses(vm, "int or float", x)
            &&& takes_numbers(i.op) && !x_is ==> refuses(vm, "int or float", x)
            &&& takes_numbers(i.op) && x_is && !y_is ==> refuses(vm, "int or float", y)
            &&& i.op == Op::Core(Opcode::Div) && !y_is ==> refuses(vm, "int or float", y)
            &&& i.op == Op::Core(Opcode::Div) && y_is && !x_is ==> refuses(vm, "int or float", x)
            &&& i.op == Op::Core(Opcode::Mod) && !(x is Int && y is Int) ==> faults(vm, step(vm))
                && (step(vm).stop matches Some(
                VmResultView::Trap(FaultView::Plain(Fault::Invariant(_))),
            ))
        }),
{
    code_is_indexed(vm);
}

/// An instruction that needs a capability, a message, a time or a tag and finds
/// something else says what it needed and what it found.
pub proof fn wrong_operands_are_named(vm: VmView, i: Instruction)
    requires
        fetches(vm, i),
        i.a < regs(vm).len(),
        i.b < regs(vm).len(),
        i.c < regs(vm).len(),
    ensures
        ({
            let (x, y, z) = (regs(vm)[i.a as int], regs(vm)[i.b as int], regs(vm)[i.c as int]);
            let no_time = !(x is Bool) && !(x is Int && x->Int_0 >= 0);
            &&& i.op == Op::Core(Opcode::Sleep) && no_time ==> refuses(vm, "non-negative int", x)
            &&& i.op == Op::Core(Opcode::Send) && !(x is Cap) ==> refuses(vm, "cap", x)
            &&& i.op == Op::Core(Opcode::Send) && x is Cap && !(y is Message) ==> refuses(
                vm,
                "message",
                y,
            )
            &&& i.op == Op::Ext(ExtOpcode::Ask) && !(y is Cap) ==> refuses(vm, "cap", y)
            &&& i.op == Op::Ext(ExtOpcode::Ask) && y is Cap && !(z is Message) ==> refuses(
                vm,
                "message",
                z,
            )
            &&& (i.op == Op::Ext(ExtOpcode::Monitor) || i.op == Op::Ext(ExtOpcode::Link) || i.op
                == Op::Ext(ExtOpcode::Delegate)) && !(y is Cap) ==> refuses(vm, "cap", y)
            &&& i.op == Op::Ext(ExtOpcode::ReceiveMatch) && !(y is Int) && !(y is Bool) ==> refuses(
                vm,
                "int",
                y,
            )
            &&& i.op == Op::Ext(ExtOpcode::ReceiveMatch) && y is Int && !(0 <= y->Int_0 <= 0xFFFF)
                ==> stops_for(
                vm,
                step(vm),
                VmResultView::Trap(
                    FaultView::Plain(
                        Fault::TypeMismatch { expected: "tag u16", got: "int-out-of-range" },
                    ),
                ),
            )
            &&& i.op == Op::Ext(ExtOpcode::ReceiveMatchImm) && !(0 <= i.imm <= 0xFFFF) ==> stops_for(
                vm,
                step(vm),
                VmResultView::Trap(
                    FaultView::Plain(
                        Fault::TypeMismatch { expected: "tag u16", got: "imm-out-of-range" },
                    ),
                ),
            )
        }),
{
    code_is_indexed(vm);
}

} // verus!
