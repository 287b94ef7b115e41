//! The interpreter.

pub mod effects;
pub mod fault;
pub mod frame;
pub mod laws;
pub mod machine;
pub mod native;
pub mod result;
pub mod semantics;
