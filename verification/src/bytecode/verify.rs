//! Structural verification of a module before it runs.

use vstd::prelude::*;

use super::chunk::Chunk;
use super::instruction::Instruction;
use super::opcode::{Op, Opcode};
use crate::text::{dec, dec_int, hex2, push_dec, push_dec_int, push_hex2};

verus! {

/// Why a module is refused.
#[derive(Clone, Debug, PartialEq, Eq, Structural)]
pub enum VerifyError {
    UnknownOpcode { at: usize, byte: u8 },
    ConstOutOfRange { at: usize, index: u32, len: usize },
    FunctionOutOfRange { at: usize, index: u32, len: usize },
    JumpOutOfRange { at: usize, target: i64, len: usize },
    EmptyFunctionTable,
    EntryOutOfRange { function: usize, entry: u32, len: usize },
    /// More parameters than registers: such a function cannot be entered.
    ArityExceedsRegisters { function: usize, arity: u8, num_registers: u8 },
}

impl VerifyError {
    pub open spec fn spec_text(self) -> Seq<char> {
        match self {
            VerifyError::UnknownOpcode { at, byte } => "unknown opcode 0x"@ + hex2(byte)
                + " at instruction "@ + dec(at as nat),
            VerifyError::ConstOutOfRange { at, index, len } => "instruction "@ + dec(at as nat)
                + " references constant "@ + dec(index as nat) + ", pool has "@ + dec(len as nat)
                + " entries"@,
            VerifyError::FunctionOutOfRange { at, index, len } => "instruction "@ + dec(at as nat)
                + " references function "@ + dec(index as nat) + ", table has "@ + dec(len as nat)
                + " entries"@,
            VerifyError::JumpOutOfRange { at, target, len } => "instruction "@ + dec(at as nat)
                + " jumps to "@ + dec_int(target as int) + ", out of code bounds (len="@ + dec(
                len as nat,
            ) + ")"@,
            VerifyError::EmptyFunctionTable => "chunk has no entry function"@,
            VerifyError::EntryOutOfRange { function, entry, len } => "function "@ + dec(
                function as nat,
            ) + " entry point "@ + dec(entry as nat) + " is out of code bounds (len="@ + dec(
                len as nat,
            ) + ")"@,
            VerifyError::ArityExceedsRegisters { function, arity, num_registers } => "function "@
                + dec(function as nat) + " declares arity "@ + dec(arity as nat) + " but only "@
                + dec(num_registers as nat) + " registers"@,
        }
    }

    pub fn to_text(&self) -> (s: String)
        ensures
            s@ == self.spec_text(),
    {
        match self {
            VerifyError::UnknownOpcode { at, byte } => {
                let mut s = String::from_str("unknown opcode 0x");
                push_hex2(&mut s, *byte);
                s.append(" at instruction ");
                push_dec(&mut s, *at as u64);
                s
            },
            VerifyError::ConstOutOfRange { at, index, len } => {
                let mut s = String::from_str("instruction ");
                push_dec(&mut s, *at as u64);
                s.append(" references constant ");
                push_dec(&mut s, *index as u64);
                s.append(", pool has ");
                push_dec(&mut s, *len as u64);
                s.append(" entries");
                s
            },
            VerifyError::FunctionOutOfRange { at, index, len } => {
                let mut s = String::from_str("instruction ");
                push_dec(&mut s, *at as u64);
                s.append(" references function ");
                push_dec(&mut s, *index as u64);
                s.append(", table has ");
                push_dec(&mut s, *len as u64);
                s.append(" entries");
                s
            },
            VerifyError::JumpOutOfRange { at, target, len } => {
                let mut s = String::from_str("instruction ");
                push_dec(&mut s, *at as u64);
                s.append(" jumps to ");
                push_dec_int(&mut s, *target);
                s.append(", out of code bounds (len=");
                push_dec(&mut s, *len as u64);
                s.append(")");
                s
            },
            VerifyError::EmptyFunctionTable => String::from_str("chunk has no entry function"),
            VerifyError::EntryOutOfRange { function, entry, len } => {
                let mut s = String::from_str("function ");
                push_dec(&mut s, *function as u64);
                s.append(" entry point ");
                push_dec(&mut s, *entry as u64);
                s.append(" is out of code bounds (len=");
                push_dec(&mut s, *len as u64);
                s.append(")");
                s
            },
            VerifyError::ArityExceedsRegisters { function, arity, num_registers } => {
                let mut s = String::from_str("function ");
                push_dec(&mut s, *function as u64);
                s.append(" declares arity ");
                push_dec(&mut s, *arity as u64);
                s.append(" but only ");
                push_dec(&mut s, *num_registers as u64);
                s.append(" registers");
                s
            },
        }
    }
}

/// What is wrong with entry `i` of the function table, if anything.
pub open spec fn function_error(chunk: Chunk, i: int) -> Option<VerifyError> {
    let def = chunk.functions@[i];
    let len = chunk.code@.len();
    if def.entry >= len {
        Some(
            VerifyError::EntryOutOfRange {
                function: i as usize,
                entry: def.entry,
                len: len as usize,
            },
        )
    } else if def.arity > def.num_registers {
        Some(
            VerifyError::ArityExceedsRegisters {
                function: i as usize,
                arity: def.arity,
                num_registers: def.num_registers,
            },
        )
    } else {
        None
    }
}

/// Where the jump or branch at `at` goes.
pub open spec fn jump_target(at: int, imm: i32) -> int {
    at + 1 + imm
}

/// What is wrong with instruction `at`, if anything.
pub open spec fn instruction_error(chunk: Chunk, at: int) -> Option<VerifyError> {
    let i = chunk.code@[at];
    let index = i.imm as u32;
    match i.op {
        Op::Core(Opcode::LoadConst) => if index >= chunk.constants@.len() {
            Some(
                VerifyError::ConstOutOfRange {
                    at: at as usize,
                    index,
                    len: chunk.constants@.len() as usize,
                },
            )
        } else {
            None
        },
        Op::Core(Opcode::Spawn) | Op::Core(Opcode::Call) => if index >= chunk.functions@.len() {
            Some(
                VerifyError::FunctionOutOfRange {
                    at: at as usize,
                    index,
                    len: chunk.functions@.len() as usize,
                },
            )
        } else {
            None
        },
        Op::Core(Opcode::Jump) | Op::Core(Opcode::Branch) => if jump_target(at, i.imm) < 0
            || jump_target(at, i.imm) > chunk.code@.len() {
            Some(
                VerifyError::JumpOutOfRange {
                    at: at as usize,
                    target: jump_target(at, i.imm) as i64,
                    len: chunk.code@.len() as usize,
                },
            )
        } else {
            None
        },
        _ => None,
    }
}

/// The function table is sound.
pub open spec fn functions_ok(chunk: Chunk) -> bool {
    forall|i: int|
        0 <= i < chunk.functions@.len() ==> #[trigger] function_error(chunk, i) is None
}

/// Every instruction is sound.
pub open spec fn instructions_ok(chunk: Chunk) -> bool {
    forall|at: int| 0 <= at < chunk.code@.len() ==> #[trigger] instruction_error(chunk, at) is None
}

/// What verification establishes: there is a function to enter, every function
/// can be entered, and every constant, function and jump target that an
/// instruction names exists.
pub open spec fn verified(chunk: Chunk) -> bool {
    &&& chunk.functions@.len() > 0
    &&& functions_ok(chunk)
    &&& instructions_ok(chunk)
}

/// `e` is the error of the first unsound function.
pub open spec fn first_function_error(chunk: Chunk, e: VerifyError) -> bool {
    exists|i: int|
        {
            &&& 0 <= i < chunk.functions@.len()
            &&& #[trigger] function_error(chunk, i) == Some(e)
            &&& forall|j: int| 0 <= j < i ==> #[trigger] function_error(chunk, j) is None
        }
}

/// `e` is the error of the first unsound instruction.
pub open spec fn first_instruction_error(chunk: Chunk, e: VerifyError) -> bool {
    exists|at: int|
        {
            &&& 0 <= at < chunk.code@.len()
            &&& #[trigger] instruction_error(chunk, at) == Some(e)
            &&& forall|j: int| 0 <= j < at ==> #[trigger] instruction_error(chunk, j) is None
        }
}

/// Why a chunk is refused: the first thing that is wrong with it, functions
/// before instructions.
pub open spec fn refused_for(chunk: Chunk, e: VerifyError) -> bool {
    if chunk.functions@.len() == 0 {
        e == VerifyError::EmptyFunctionTable
    } else if !functions_ok(chunk) {
        first_function_error(chunk, e)
    } else {
        first_instruction_error(chunk, e)
    }
}

fn check_instruction(chunk: &Chunk, at: usize) -> (r: Option<VerifyError>)
    requires
        at < chunk.code@.len(),
    ensures
        r == instruction_error(*chunk, at as int),
{
    let i: Instruction = chunk.code[at];
    match i.op {
        Op::Core(Opcode::LoadConst) => {
            let index: u32 = i.imm as u32;
            if index as usize >= chunk.constants.len() {
                return Some(
                    VerifyError::ConstOutOfRange { at, index, len: chunk.constants.len() },
                );
            }
        },
        Op::Core(Opcode::Spawn) | Op::Core(Opcode::Call) => {
            let index: u32 = i.imm as u32;
            if index as usize >= chunk.functions.len() {
                return Some(
                    VerifyError::FunctionOutOfRange { at, index, len: chunk.functions.len() },
                );
            }
        },
        Op::Core(Opcode::Jump) | Op::Core(Opcode::Branch) => {
            let target: i128 = at as i128 + 1 + i.imm as i128;
            if target < 0 || target > chunk.code.len() as i128 {
                return Some(
                    VerifyError::JumpOutOfRange { at, target: target as i64, len: chunk.code.len() },
                );
            }
        },
        _ => {},
    }
    None
}

/// Verify `chunk`, reporting the first defect: an empty function table, then
/// the functions in order, then the instructions in order.
///
/// Jumping to one past the last instruction is sound: it leaves the function.
/// Native indices are not checked, since the native table is the host's.
pub fn verify(chunk: &Chunk) -> (r: Result<(), VerifyError>)
    ensures
        r is Ok <==> verified(*chunk),
        r matches Err(e) ==> refused_for(*chunk, e),
{
    if chunk.functions.len() == 0 {
        return Err(VerifyError::EmptyFunctionTable);
    }
    let len: usize = chunk.code.len();
    let mut function: usize = 0;
    while function < chunk.functions.len()
        invariant
            len == chunk.code@.len(),
            function <= chunk.functions@.len(),
            chunk.functions@.len() > 0,
            forall|j: int| 0 <= j < function ==> #[trigger] function_error(*chunk, j) is None,
        decreases chunk.functions@.len() - function,
    {
        let def = &chunk.functions[function];
        if def.entry as usize >= len {
            let e = VerifyError::EntryOutOfRange { function, entry: def.entry, len };
            assert(function_error(*chunk, function as int) == Some(e));
            return Err(e);
        }
        if def.arity > def.num_registers {
            let e = VerifyError::ArityExceedsRegisters {
                function,
                arity: def.arity,
                num_registers: def.num_registers,
            };
            assert(function_error(*chunk, function as int) == Some(e));
            return Err(e);
        }
        function = function + 1;
    }
    let mut at: usize = 0;
    while at < len
        invariant
            len == chunk.code@.len(),
            at <= len,
            chunk.functions@.len() > 0,
            functions_ok(*chunk),
            forall|j: int| 0 <= j < at ==> #[trigger] instruction_error(*chunk, j) is None,
        decreases len - at,
    {
        match check_instruction(chunk, at) {
            Some(e) => {
                assert(instruction_error(*chunk, at as int) == Some(e));
                return Err(e);
            },
            None => {},
        }
        at = at + 1;
    }
    Ok(())
}

/// Function `k` of the table can be entered: it begins at an instruction and has
/// a register for each parameter.
pub open spec fn enterable(chunk: Chunk, k: int) -> bool {
    chunk.functions@[k].entry < chunk.code@.len() && chunk.functions@[k].arity
        <= chunk.functions@[k].num_registers
}

/// Instruction `at` names nothing that is missing: a constant, a function to
/// call or to start, or a place to jump to, which may be one past the last
/// instruction.
pub open spec fn names_what_exists(chunk: Chunk, at: int) -> bool {
    let i = chunk.code@[at];
    &&& i.op == Op::Core(Opcode::LoadConst) ==> (i.imm as u32) < chunk.constants@.len()
    &&& i.op == Op::Core(Opcode::Call) ==> (i.imm as u32) < chunk.functions@.len()
    &&& i.op == Op::Core(Opcode::Spawn) ==> (i.imm as u32) < chunk.functions@.len()
    &&& i.op == Op::Core(Opcode::Jump) ==> 0 <= at + 1 + i.imm <= chunk.code@.len()
    &&& i.op == Op::Core(Opcode::Branch) ==> 0 <= at + 1 + i.imm <= chunk.code@.len()
}

/// A module is accepted if and only if it has a function, every function can be
/// entered, and no instruction names what is missing.
pub proof fn acceptance_is_exact(chunk: Chunk)
    ensures
        verified(chunk) <==> {
            &&& chunk.functions@.len() > 0
            &&& forall|k: int| 0 <= k < chunk.functions@.len() ==> #[trigger] enterable(chunk, k)
            &&& forall|at: int| 0 <= at < chunk.code@.len() ==> #[trigger] names_what_exists(chunk, at)
        },
{
    assert forall|k: int| 0 <= k < chunk.functions@.len() implies #[trigger] enterable(chunk, k) == (
    function_error(chunk, k) is None) by {}
    assert forall|at: int| 0 <= at < chunk.code@.len() implies #[trigger] names_what_exists(chunk, at)
        == (instruction_error(chunk, at) is None) by {}
    if verified(chunk) {
        assert forall|k: int| 0 <= k < chunk.functions@.len() implies #[trigger] enterable(
            chunk,
            k,
        ) by {
            assert(function_error(chunk, k) is None);
        }
        assert forall|at: int| 0 <= at < chunk.code@.len() implies #[trigger] names_what_exists(
            chunk,
            at,
        ) by {
            assert(instruction_error(chunk, at) is None);
        }
    }
    if chunk.functions@.len() > 0 && (forall|k: int|
        0 <= k < chunk.functions@.len() ==> #[trigger] enterable(chunk, k)) && (forall|at: int|
        0 <= at < chunk.code@.len() ==> #[trigger] names_what_exists(chunk, at)) {
        assert forall|k: int| 0 <= k < chunk.functions@.len() implies #[trigger] function_error(
            chunk,
            k,
        ) is None by {
            assert(enterable(chunk, k));
        }
        assert forall|at: int| 0 <= at < chunk.code@.len() implies #[trigger] instruction_error(
            chunk,
            at,
        ) is None by {
            assert(names_what_exists(chunk, at));
        }
    }
}

/// The reason for a refusal is true of the module: it points at a function that
/// cannot be entered or at an instruction that names what is missing, and nothing
/// before it is wrong.
pub proof fn refusal_is_justified(chunk: Chunk, e: VerifyError)
    requires
        refused_for(chunk, e),
    ensures
        match e {
            VerifyError::EmptyFunctionTable => chunk.functions@.len() == 0,
            VerifyError::EntryOutOfRange { function, entry, len } => {
                &&& function < chunk.functions@.len()
                &&& entry == chunk.functions@[function as int].entry
                &&& len == chunk.code@.len()
                &&& entry >= len
                &&& forall|k: int| 0 <= k < function ==> #[trigger] enterable(chunk, k)
            },
            VerifyError::ArityExceedsRegisters { function, arity, num_registers } => {
                &&& function < chunk.functions@.len()
                &&& arity == chunk.functions@[function as int].arity
                &&& num_registers == chunk.functions@[function as int].num_registers
                &&& arity > num_registers
                &&& forall|k: int| 0 <= k < function ==> #[trigger] enterable(chunk, k)
            },
            VerifyError::ConstOutOfRange { at, index, len } => {
                &&& first_bad_instruction(chunk, at as int)
                &&& chunk.code@[at as int].op == Op::Core(Opcode::LoadConst)
                &&& index == chunk.code@[at as int].imm as u32
                &&& len == chunk.constants@.len()
                &&& index >= len
            },
            VerifyError::FunctionOutOfRange { at, index, len } => {
                &&& first_bad_instruction(chunk, at as int)
                &&& chunk.code@[at as int].op == Op::Core(Opcode::Call)
                    || chunk.code@[at as int].op == Op::Core(Opcode::Spawn)
                &&& index == chunk.code@[at as int].imm as u32
                &&& len == chunk.functions@.len()
                &&& index >= len
            },
            VerifyError::JumpOutOfRange { at, target, len } => {
                &&& first_bad_instruction(chunk, at as int)
                &&& chunk.code@[at as int].op == Op::Core(Opcode::Jump)
                    || chunk.code@[at as int].op == Op::Core(Opcode::Branch)
                &&& len == chunk.code@.len()
                &&& chunk.code@.len() <= 0x7000_0000_0000_0000 ==> target == at + 1
                    + chunk.code@[at as int].imm && (target < 0 || target > len)
            },
            VerifyError::UnknownOpcode { .. } => false,
        },
{
    assert(chunk.functions@.len() == chunk.functions.len());
    assert(chunk.code@.len() == chunk.code.len());
    assert(chunk.constants@.len() == chunk.constants.len());
    assert forall|k: int| 0 <= k < chunk.functions@.len() implies #[trigger] enterable(chunk, k) == (
    function_error(chunk, k) is None) by {}
    assert forall|at: int| 0 <= at < chunk.code@.len() implies #[trigger] names_what_exists(chunk, at)
        == (instruction_error(chunk, at) is None) by {}
    if chunk.functions@.len() > 0 && !functions_ok(chunk) {
        let k = choose|k: int|
            {
                &&& 0 <= k < chunk.functions@.len()
                &&& #[trigger] function_error(chunk, k) == Some(e)
                &&& forall|j: int| 0 <= j < k ==> #[trigger] function_error(chunk, j) is None
            };
        assert forall|j: int| 0 <= j < k implies #[trigger] enterable(chunk, j) by {
            assert(function_error(chunk, j) is None);
        }
    } else if chunk.functions@.len() > 0 {
        let at = choose|at: int|
            {
                &&& 0 <= at < chunk.code@.len()
                &&& #[trigger] instruction_error(chunk, at) == Some(e)
                &&& forall|j: int| 0 <= j < at ==> #[trigger] instruction_error(chunk, j) is None
            };
        assert forall|j: int| 0 <= j < chunk.functions@.len() implies #[trigger] enterable(
            chunk,
            j,
        ) by {
            assert(function_error(chunk, j) is None);
        }
        assert forall|j: int| 0 <= j < at implies #[trigger] names_what_exists(chunk, j) by {
            assert(instruction_error(chunk, j) is None);
        }
        assert(first_bad_instruction(chunk, at));
    }
}

/// All functions can be entered, and `at` is the first instruction that names
/// what is missing.
pub open spec fn first_bad_instruction(chunk: Chunk, at: int) -> bool {
    &&& 0 <= at < chunk.code@.len()
    &&& forall|k: int| 0 <= k < chunk.functions@.len() ==> #[trigger] enterable(chunk, k)
    &&& forall|j: int| 0 <= j < at ==> #[trigger] names_what_exists(chunk, j)
}

} // verus!
