//! Choices of the command line.

use vstd::prelude::*;

use crate::bytecode::chunk::Chunk;
use crate::samples::{
    add_forty_two, add_forty_two_code, boom, boom_code, func, listed, ping_pong, ping_pong_code,
};
use crate::scheduler::runtime::{function_named, Runtime};
use crate::vm::native::str_eq;

verus! {

/// A demonstration by its name.
pub fn demo_chunk(name: &str) -> (r: Option<Chunk>)
    ensures
        if name@ == "ping-pong"@ || name@ == "ping_pong"@ {
            r matches Some(c) && listed(
                c,
                "ping-pong"@,
                seq![func("pong"@, 0, 0, 13), func("main"@, 16, 0, 13)],
                ping_pong_code(),
            )
        } else if name@ == "add"@ || name@ == "add-forty-two"@ || name@ == "42"@ {
            r matches Some(c) && listed(
                c,
                "add-forty-two"@,
                seq![func("main"@, 0, 0, 7)],
                add_forty_two_code(),
            )
        } else if name@ == "boom"@ {
            r matches Some(c) && listed(c, "boom"@, seq![func("boom"@, 0, 0, 4)], boom_code())
        } else {
            r is None
        },
{
    if str_eq(name, "ping-pong") || str_eq(name, "ping_pong") {
        Some(ping_pong())
    } else if str_eq(name, "add") || str_eq(name, "add-forty-two") || str_eq(name, "42") {
        Some(add_forty_two())
    } else if str_eq(name, "boom") {
        Some(boom())
    } else {
        None
    }
}

/// The function to run: the one that was asked for, or else `main`, or else
/// the first one.
pub fn entry_function(rt: &Runtime, function: Option<&str>) -> (r: Option<u32>)
    ensures
        r == (match function {
            Some(name) => function_named(rt@.chunk, name@, 0),
            None => match function_named(rt@.chunk, "main"@, 0) {
                Some(i) => Some(i),
                None => if rt@.chunk.functions@.len() > 0 {
                    Some(0u32)
                } else {
                    None
                },
            },
        }),
{
    match function {
        Some(name) => rt.function_index(name),
        None => match rt.function_index("main") {
            Some(i) => Some(i),
            None => {
                if rt.chunk.functions.len() > 0 {
                    Some(0)
                } else {
                    None
                }
            },
        },
    }
}

} // verus!
