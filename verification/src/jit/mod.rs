//! The interface of compiled traces.

pub mod error;
pub mod exit;
pub mod frame;

use vstd::prelude::*;

verus! {

/// How often a place must run before it is compiled.
pub const HOT_THRESHOLD: u32 = 50;

} // verus!
