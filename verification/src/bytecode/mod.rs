//! Values, instructions and modules.

pub mod assembly;
pub mod builder;
pub mod cap;
pub mod chunk;
pub mod instruction;
pub mod opcode;
pub mod program;
pub mod value;
pub mod verify;
