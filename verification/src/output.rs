//! Where the `print` native writes.

use vstd::prelude::*;

use crate::natives::{joined, print_line};

verus! {

/// Discards what is printed.
#[derive(Clone, Copy, Debug)]
pub struct NullSink;

impl NullSink {
    /// The line to write for values with these texts: none.
    pub fn write(&self, _parts: &Vec<String>) -> (r: Option<String>)
        ensures
            r is None,
    {
        None
    }
}

/// Writes what is printed to the standard output.
#[derive(Clone, Copy, Debug)]
pub struct StdoutSink;

impl StdoutSink {
    /// The line to write for values with these texts: the texts, separated by
    /// spaces.
    pub fn write(&self, parts: &Vec<String>) -> (r: Option<String>)
        ensures
            r matches Some(s) && s@ == joined(parts@.map_values(|p: String| p@)),
    {
        Some(print_line(parts))
    }
}

} // verus!
