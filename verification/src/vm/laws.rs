//! What holds of every run.

use vstd::prelude::*;

use super::fault::FaultView;
use super::frame::FrameView;
use super::machine::MAX_CALL_DEPTH;
use super::native::gate_allows;
use super::result::VmResultView;
use super::semantics::{
    after, do_ask, do_ask_timeout, do_call_native, do_send, enter, gather, leave, lookup, reg_read,
    reg_write, run, step, with_top, VmView,
};
use crate::bytecode::chunk::Chunk;
use crate::bytecode::instruction::Instruction;
use crate::bytecode::opcode::{Op, Opcode};
use crate::bytecode::value::Value;
use crate::bytecode::verify::{
    function_error, instruction_error, jump_target, verified,
};

verus! {

/// The budget is used up before any step stops the run.
pub open spec fn runs_out(vm: VmView, budget: nat) -> bool
    decreases budget,
{
    budget == 0 || (step(vm).stop is None && runs_out(after(vm, step(vm)), (budget - 1) as nat))
}

/// Preemption is invisible: a run that is cut short by its budget and taken up
/// again ends where one run with the whole budget ends.
pub proof fn slices_compose(vm: VmView, first: nat, second: nat)
    requires
        runs_out(vm, first),
    ensures
        run(vm, first).1 == VmResultView::Yield,
        run(vm, first + second) == run(run(vm, first).0, second),
    decreases first,
{
    if first > 0 {
        slices_compose(after(vm, step(vm)), (first - 1) as nat, second);
    }
}

/// A run changes neither the module nor the native table nor the native gate.
pub proof fn run_keeps_surroundings(vm: VmView, budget: nat)
    ensures
        run(vm, budget).0.chunk == vm.chunk,
        run(vm, budget).0.natives == vm.natives,
        run(vm, budget).0.gate == vm.gate,
    decreases budget,
{
    if budget > 0 && step(vm).stop is None {
        run_keeps_surroundings(after(vm, step(vm)), (budget - 1) as nat);
    }
}

/// The call stack never grows beyond its limit.
pub proof fn depth_is_bounded(vm: VmView, budget: nat)
    requires
        vm.frames.len() <= MAX_CALL_DEPTH,
    ensures
        run(vm, budget).0.frames.len() <= MAX_CALL_DEPTH,
    decreases budget,
{
    if budget > 0 {
        assert(step(vm).frames.len() <= MAX_CALL_DEPTH);
        if step(vm).stop is None {
            depth_is_bounded(after(vm, step(vm)), (budget - 1) as nat);
        }
    }
}

/// In a verified module every function of the table can be entered with any
/// arguments.
pub proof fn verified_functions_can_be_entered(
    chunk: Chunk,
    function: u32,
    args: Seq<Value>,
    dest_reg: Option<u8>,
)
    requires
        verified(chunk),
        function < chunk.functions@.len(),
    ensures
        enter(chunk.functions@[function as int], function, args, dest_reg) is Ok,
{
    assert(function_error(chunk, function as int) is None);
}

/// A verified module never faults on a constant or a function that does not
/// exist.
pub proof fn verified_step_finds_what_it_names(vm: VmView)
    requires
        verified(vm.chunk),
    ensures
        step(vm).stop matches Some(VmResultView::Trap(FaultView::Plain(f))) ==> !(f is BadConstant)
            && !(f is BadFunction),
{
    if vm.frames.len() > 0 && vm.frames.last().pc < vm.chunk.code@.len() {
        let at = vm.frames.last().pc as int;
        assert(instruction_error(vm.chunk, at) is None);
        let i = vm.chunk.code@[at];
        let top = vm.frames.last();
        let frames = with_top(vm.frames, FrameView { pc: (top.pc + 1) as usize, ..top });
        gather_faults_on_registers_only(frames, i.a, 0, i.b as nat);
        gather_faults_on_registers_only(frames, i.a, 1, i.b as nat);
    }
}

proof fn gather_faults_on_registers_only(frames: Seq<FrameView>, base: u8, first: nat, n: nat)
    ensures
        gather(frames, base, first, n) matches Err(f) ==> (f matches FaultView::Plain(p) && (
        p is RegisterOutOfRange || p is RegisterIndexOverflow || p is Invariant)),
    decreases n,
{
    if n > 0 {
        gather_faults_on_registers_only(frames, base, first, (n - 1) as nat);
    }
}

/// The same of a whole run.
pub proof fn verified_run_finds_what_it_names(vm: VmView, budget: nat)
    requires
        verified(vm.chunk),
    ensures
        run(vm, budget).1 matches VmResultView::Trap(FaultView::Plain(f)) ==> !(f is BadConstant)
            && !(f is BadFunction),
    decreases budget,
{
    if budget > 0 {
        verified_step_finds_what_it_names(vm);
        if step(vm).stop is None {
            verified_run_finds_what_it_names(after(vm, step(vm)), (budget - 1) as nat);
        }
    }
}

/// Whatever a run of a verified module asks to be started is a function of its
/// table, one that can be entered.
pub proof fn verified_run_starts_what_exists(vm: VmView, budget: nat)
    requires
        verified(vm.chunk),
    ensures
        run(vm, budget).1 matches VmResultView::Spawn { function, .. } ==> {
            &&& function < vm.chunk.functions@.len()
            &&& vm.chunk.functions@[function as int].entry < vm.chunk.code@.len()
            &&& vm.chunk.functions@[function as int].arity
                <= vm.chunk.functions@[function as int].num_registers
        },
    decreases budget,
{
    if budget > 0 {
        if vm.frames.len() > 0 && vm.frames.last().pc < vm.chunk.code@.len() {
            let at = vm.frames.last().pc as int;
            assert(instruction_error(vm.chunk, at) is None);
            match step(vm).stop {
                Some(VmResultView::Spawn { function, .. }) => {
                    assert(function_error(vm.chunk, function as int) is None);
                },
                _ => {},
            }
        }
        if step(vm).stop is None {
            verified_run_starts_what_exists(after(vm, step(vm)), (budget - 1) as nat);
        }
    }
}

/// A jump of a verified module lands on the instruction that verification
/// looked at, or one past the last one.
pub proof fn verified_jump_lands_inside(vm: VmView)
    requires
        verified(vm.chunk),
        vm.frames.len() > 0,
        vm.frames.last().pc < vm.chunk.code@.len(),
        vm.chunk.code@[vm.frames.last().pc as int].op == Op::Core(Opcode::Jump),
    ensures
        ({
            let at = vm.frames.last().pc as int;
            let target = jump_target(at, vm.chunk.code@[at].imm);
            &&& 0 <= target <= vm.chunk.code@.len()
            &&& step(vm).stop is None
            &&& step(vm).frames.len() == vm.frames.len()
            &&& step(vm).frames.last().pc == target
        }),
{
    let at = vm.frames.last().pc as int;
    assert(instruction_error(vm.chunk, at) is None);
    assert(vm.chunk.code@.len() == vm.chunk.code.len());
}

/// Every frame stands at an instruction, or one past the last one, and the
/// outermost one returns to nobody.
pub open spec fn standing(chunk: Chunk, frames: Seq<FrameView>) -> bool {
    &&& forall|k: int| 0 <= k < frames.len() ==> (#[trigger] frames[k]).pc <= chunk.code@.len()
    &&& frames.len() > 0 ==> frames[0].dest_reg is None
}

/// A function of a verified module is entered at an instruction, and a flow
/// that starts in it stands there.
pub proof fn verified_start_stands(chunk: Chunk, function: u32, args: Seq<Value>, dest: Option<u8>)
    requires
        verified(chunk),
    ensures
        lookup(chunk, function) matches Ok(def) ==> (enter(def, function, args, dest) matches Ok(
            frame,
        ) ==> {
            &&& frame.pc < chunk.code@.len()
            &&& frame.dest_reg == dest
            &&& dest is None ==> standing(chunk, seq![frame])
        }),
{
    if function < chunk.functions@.len() {
        assert(function_error(chunk, function as int) is None);
    }
}

/// Writing a register moves no frame.
pub proof fn writing_keeps_standing(chunk: Chunk, frames: Seq<FrameView>, reg: u8, v: Value)
    requires
        standing(chunk, frames),
    ensures
        reg_write(frames, reg, v) matches Ok(fs) ==> standing(chunk, fs) && fs.len() == frames.len(),
{
}

/// A step of a verified module leaves every frame at an instruction or one past
/// the last one, and leaves a frame unless it ends the flow.
pub proof fn verified_step_stands(vm: VmView)
    requires
        verified(vm.chunk),
        vm.frames.len() > 0,
        standing(vm.chunk, vm.frames),
    ensures
        standing(vm.chunk, step(vm).frames),
        !(step(vm).stop matches Some(VmResultView::Complete(_))) ==> step(vm).frames.len() > 0,
{
    let frames = vm.frames;
    let top = frames.last();
    assert(standing(vm.chunk, frames.drop_last()));
    if top.pc < vm.chunk.code@.len() {
        let at = top.pc as int;
        let i = vm.chunk.code@[at];
        assert(instruction_error(vm.chunk, at) is None);
        assert(vm.chunk.code@.len() == vm.chunk.code.len());
        let fetched = with_top(frames, FrameView { pc: (top.pc + 1) as usize, ..top });
        assert(standing(vm.chunk, fetched));
        assert forall|reg: u8, v: Value| (#[trigger] reg_write(fetched, reg, v) matches Ok(fs)
            ==> standing(vm.chunk, fs) && fs.len() == fetched.len()) by {
            writing_keeps_standing(vm.chunk, fetched, reg, v);
        }
        assert(fetched.drop_last() =~= frames.drop_last());
        leaving_keeps_standing(vm.chunk, fetched);
        match i.op {
            Op::Core(Opcode::Call) => {
                assert forall|args: Seq<Value>| (#[trigger] enter(
                    vm.chunk.functions@[i.imm as u32 as int],
                    i.imm as u32,
                    args,
                    Some(i.a),
                ) matches Ok(frame) ==> standing(vm.chunk, fetched.push(frame))) by {
                    verified_start_stands(vm.chunk, i.imm as u32, args, Some(i.a));
                }
            },
            _ => {},
        }
    } else {
        leaving_keeps_standing(vm.chunk, frames);
    }
}

proof fn leaving_keeps_standing(chunk: Chunk, frames: Seq<FrameView>)
    requires
        frames.len() > 0,
        standing(chunk, frames),
    ensures
        forall|v: Value|
            {
                &&& standing(chunk, (#[trigger] leave(frames, v)).frames)
                &&& !(leave(frames, v).stop matches Some(VmResultView::Complete(_))) ==> leave(
                    frames,
                    v,
                ).frames.len() > 0
            },
{
    assert(standing(chunk, frames.drop_last()));
    assert forall|reg: u8, v: Value| (#[trigger] reg_write(frames.drop_last(), reg, v) matches Ok(fs)
        ==> standing(chunk, fs) && fs.len() == frames.drop_last().len()) by {
        writing_keeps_standing(chunk, frames.drop_last(), reg, v);
    }
}

/// After every run of a verified module each frame stands at an instruction or
/// one past the last one, and unless the flow is done there is a frame.
pub proof fn verified_run_stands(vm: VmView, budget: nat)
    requires
        verified(vm.chunk),
        vm.frames.len() > 0,
        standing(vm.chunk, vm.frames),
    ensures
        standing(vm.chunk, run(vm, budget).0.frames),
        !(run(vm, budget).1 is Complete) ==> run(vm, budget).0.frames.len() > 0
            && run(vm, budget).0.frames.last().pc <= vm.chunk.code@.len(),
    decreases budget,
{
    if budget > 0 {
        verified_step_stands(vm);
        if step(vm).stop is None {
            verified_run_stands(after(vm, step(vm)), (budget - 1) as nat);
        }
    }
}

/// Gathered arguments are the consecutive registers they are said to be: the
/// index never wraps round to another register.
pub proof fn gathered_registers_are_consecutive(
    frames: Seq<FrameView>,
    base: u8,
    first: nat,
    n: nat,
    k: int,
)
    requires
        gather(frames, base, first, n) is Ok,
        0 <= k < n,
    ensures
        gather(frames, base, first, n)->Ok_0.len() == n,
        base + first + k <= u8::MAX,
        reg_read(frames, (base + first + k) as u8) == Ok::<_, FaultView>(
            gather(frames, base, first, n)->Ok_0[k],
        ),
    decreases n,
{
    let m = (n - 1) as nat;
    reveal_with_fuel(gather, 2);
    if m > 0 {
        let j = if k < m {
            k
        } else {
            0
        };
        gathered_registers_are_consecutive(frames, base, first, m, j);
    }
}

/// A native slot that the native gate does not let through is never called: the flow
/// faults with its registers as they were.
pub proof fn denied_native_is_not_called(vm: VmView, frames: Seq<FrameView>, i: Instruction)
    requires
        !gate_allows(vm.gate, (i.imm as u32) as int),
    ensures
        do_call_native(vm, frames, i).frames == frames,
        do_call_native(vm, frames, i).stop matches Some(VmResultView::Trap(_)),
{
}

/// Only a message leaves a flow: whatever a run asks the scheduler to deliver is
/// one.
pub proof fn only_messages_leave(vm: VmView, budget: nat)
    ensures
        run(vm, budget).1 matches VmResultView::Send { message, .. } ==> message is Message,
        run(vm, budget).1 matches VmResultView::Ask { request, .. } ==> request is Message,
    decreases budget,
{
    if budget > 0 && step(vm).stop is None {
        only_messages_leave(after(vm, step(vm)), (budget - 1) as nat);
    }
}

/// A send to anything but a capability, such as a pid, and a send of anything
/// but a message are faults. No register changes.
pub proof fn other_sends_fault(frames: Seq<FrameView>, i: Instruction, target: Value, value: Value)
    requires
        reg_read(frames, i.a) == Ok::<Value, FaultView>(target),
        reg_read(frames, i.b) == Ok::<Value, FaultView>(value),
        !(target is Cap) || !(value is Message),
    ensures
        do_send(frames, i).stop matches Some(VmResultView::Trap(_)),
        do_send(frames, i).frames == frames,
{
}

/// The same of an ask, with a limit on the wait or without.
pub proof fn other_asks_fault(frames: Seq<FrameView>, i: Instruction, target: Value, value: Value)
    requires
        reg_read(frames, i.b) == Ok::<Value, FaultView>(target),
        reg_read(frames, i.c) == Ok::<Value, FaultView>(value),
        !(target is Cap) || !(value is Message),
    ensures
        do_ask(frames, i).stop matches Some(VmResultView::Trap(_)),
        do_ask(frames, i).frames == frames,
        do_ask_timeout(frames, i).stop matches Some(VmResultView::Trap(_)),
        do_ask_timeout(frames, i).frames == frames,
{
}

} // verus!
