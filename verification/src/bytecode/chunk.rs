//! A compiled module.

use vstd::prelude::*;

use super::instruction::Instruction;
use super::value::Value;

verus! {

/// First bytes of a module file: `BFV0`.
pub const MAGIC: [u8; 4] = [0x42, 0x46, 0x56, 0x30];

/// Version of the instruction encoding, the constants and the function table.
pub const ABI_VERSION: u32 = 2;

/// An entry of the function table.
#[derive(Debug)]
pub struct FunctionDef {
    pub name: String,
    /// Index of the first instruction.
    pub entry: u32,
    /// Number of parameters, passed in `r0..arity`.
    pub arity: u8,
    /// Number of registers of a frame.
    pub num_registers: u8,
}

/// A function table entry as a mathematical value.
#[verifier::ext_equal]
pub struct FunctionView {
    pub name: Seq<char>,
    pub entry: u32,
    pub arity: u8,
    pub num_registers: u8,
}

impl View for FunctionDef {
    type V = FunctionView;

    open spec fn view(&self) -> FunctionView {
        FunctionView {
            name: self.name@,
            entry: self.entry,
            arity: self.arity,
            num_registers: self.num_registers,
        }
    }
}

impl Clone for FunctionDef {
    fn clone(&self) -> (r: FunctionDef)
        ensures
            r@ == self@,
    {
        FunctionDef {
            name: self.name.clone(),
            entry: self.entry,
            arity: self.arity,
            num_registers: self.num_registers,
        }
    }
}

impl PartialEq for FunctionDef {
    fn eq(&self, other: &FunctionDef) -> (r: bool) {
        self.name == other.name && self.entry == other.entry && self.arity == other.arity
            && self.num_registers == other.num_registers
    }
}

impl vstd::std_specs::cmp::PartialEqSpecImpl for FunctionDef {
    open spec fn obeys_eq_spec() -> bool {
        true
    }

    open spec fn eq_spec(&self, other: &FunctionDef) -> bool {
        &&& self.name@ == other.name@
        &&& self.entry == other.entry
        &&& self.arity == other.arity
        &&& self.num_registers == other.num_registers
    }
}

/// Code, constants and function table. Immutable once built, so that any
/// number of flows share one.
#[derive(Debug)]
pub struct Chunk {
    pub name: String,
    pub constants: Vec<Value>,
    pub code: Vec<Instruction>,
    pub functions: Vec<FunctionDef>,
}

impl Default for Chunk {
    fn default() -> (c: Chunk)
        ensures
            c.name@ == Seq::<char>::empty(),
            c.constants@ == Seq::<Value>::empty(),
            c.code@ == Seq::<Instruction>::empty(),
            c.functions@ == Seq::<FunctionDef>::empty(),
    {
        Chunk {
            name: String::new(),
            constants: Vec::new(),
            code: Vec::new(),
            functions: Vec::new(),
        }
    }
}

impl Chunk {
    pub fn function(&self, index: u32) -> (r: Option<&FunctionDef>)
        ensures
            r == (if index < self.functions@.len() {
                Some(&self.functions@[index as int])
            } else {
                None
            }),
    {
        let i: usize = index as usize;
        if i < self.functions.len() {
            Some(&self.functions[i])
        } else {
            None
        }
    }

    pub fn constant(&self, index: u32) -> (r: Option<&Value>)
        ensures
            r == (if index < self.constants@.len() {
                Some(&self.constants@[index as int])
            } else {
                None
            }),
    {
        let i: usize = index as usize;
        if i < self.constants.len() {
            Some(&self.constants[i])
        } else {
            None
        }
    }

    /// Number of instructions.
    pub fn len(&self) -> (n: usize)
        ensures
            n == self.code@.len(),
    {
        self.code.len()
    }

    pub fn is_empty(&self) -> (r: bool)
        ensures
            r == (self.code@.len() == 0),
    {
        self.code.len() == 0
    }
}

} // verus!
