//! The standard native functions.
//!
//! Modules name native functions by index, so the index of a function here
//! never changes; new ones are appended.
//!
//! | Index | Name | Result |
//! |------:|------|--------|
//! | 0 | `print` | prints its arguments; `Unit` |
//! | 1 | `now_ms` | wall-clock milliseconds |
//! | 2 | `make_msg` | a message from sender, request id, tag and payload |
//! | 3 | `msg_sender` | the sender, as a pid |
//! | 4 | `msg_request_id` | the correlation token |
//! | 5 | `msg_tag` | the tag |
//! | 6 | `msg_payload` | the payload |
//! | 7 | `msg_reply_cap` | the capability to answer with |
//!
//! A native call takes its arguments from `r[a..a+n]` and overwrites `r[a]`
//! with the result.

use std::sync::Arc;

use vstd::hash_map::StringHashMap;
use vstd::prelude::*;

use crate::bytecode::value::{Message, Value};
use crate::text::{dec, push_dec};
use crate::vm::fault::{result_view, Fault, FaultView};
use crate::vm::native::{
    expect_message, expect_u64, message_arg, slot_named, u64_arg, NativeFn, NativeResult,
    NativeTable,
};

verus! {

/// The names and indices of the standard functions.
pub open spec fn std_names() -> Map<Seq<char>, u32> {
    map![
        "print"@ => 0u32,
        "now_ms"@ => 1u32,
        "make_msg"@ => 2u32,
        "msg_sender"@ => 3u32,
        "msg_request_id"@ => 4u32,
        "msg_tag"@ => 5u32,
        "msg_payload"@ => 6u32,
        "msg_reply_cap"@ => 7u32,
    ]
}

/// The standard table, slot by slot.
pub open spec fn std_slots() -> Seq<Option<(Seq<char>, NativeFn)>> {
    seq![
        Some(("print"@, NativeFn::Print)),
        Some(("now_ms"@, NativeFn::NowMs)),
        Some(("make_msg"@, NativeFn::MakeMsg)),
        Some(("msg_sender"@, NativeFn::MsgSender)),
        Some(("msg_request_id"@, NativeFn::MsgRequestId)),
        Some(("msg_tag"@, NativeFn::MsgTag)),
        Some(("msg_payload"@, NativeFn::MsgPayload)),
        Some(("msg_reply_cap"@, NativeFn::MsgReplyCap)),
    ]
}

proof fn std_names_differ()
    ensures
        "print"@.len() == 5,
        "now_ms"@.len() == 6,
        "make_msg"@.len() == 8,
        "msg_sender"@.len() == 10,
        "msg_request_id"@.len() == 14,
        "msg_tag"@.len() == 7,
        "msg_payload"@.len() == 11,
        "msg_reply_cap"@.len() == 13,
{
    reveal_strlit("print");
    reveal_strlit("now_ms");
    reveal_strlit("make_msg");
    reveal_strlit("msg_sender");
    reveal_strlit("msg_request_id");
    reveal_strlit("msg_tag");
    reveal_strlit("msg_payload");
    reveal_strlit("msg_reply_cap");
}

/// The index of each standard function by name.
pub fn std_native_map() -> (m: StringHashMap<u32>)
    ensures
        m@ == std_names(),
{
    proof {
        std_names_differ();
    }
    let mut m: StringHashMap<u32> = StringHashMap::new();
    m.insert(String::from_str("print"), 0);
    m.insert(String::from_str("now_ms"), 1);
    m.insert(String::from_str("make_msg"), 2);
    m.insert(String::from_str("msg_sender"), 3);
    m.insert(String::from_str("msg_request_id"), 4);
    m.insert(String::from_str("msg_tag"), 5);
    m.insert(String::from_str("msg_payload"), 6);
    m.insert(String::from_str("msg_reply_cap"), 7);
    assert(m@ =~= std_names());
    m
}

/// The table of the standard functions.
pub fn std_native_table() -> (t: Arc<NativeTable>)
    ensures
        t@ == std_slots(),
{
    proof {
        std_names_differ();
    }
    let b = NativeTable::builder();
    let b = b.register("print", NativeFn::Print);
    let b = b.register("now_ms", NativeFn::NowMs);
    let b = b.register("make_msg", NativeFn::MakeMsg);
    let b = b.register("msg_sender", NativeFn::MsgSender);
    let b = b.register("msg_request_id", NativeFn::MsgRequestId);
    let b = b.register("msg_tag", NativeFn::MsgTag);
    let b = b.register("msg_payload", NativeFn::MsgPayload);
    let b = b.register("msg_reply_cap", NativeFn::MsgReplyCap);
    assert(b@ =~= std_slots());
    b.build()
}

/// The table and the matching names.
pub fn std_natives() -> (r: (Arc<NativeTable>, StringHashMap<u32>))
    ensures
        r.0@ == std_slots(),
        r.1@ == std_names(),
{
    (std_native_table(), std_native_map())
}

/// The map and the table agree: the slot that the map gives for a name holds
/// the function of that name, and every slot's name is in the map.
pub proof fn std_map_matches_table(name: Seq<char>, i: int)
    ensures
        std_names().dom().contains(name) ==> std_names()[name] < std_slots().len() && slot_named(
            std_slots(),
            std_names()[name] as int,
            name,
        ),
        0 <= i < std_slots().len() ==> std_slots()[i] is Some && std_names().dom().contains(
            std_slots()[i].unwrap().0,
        ) && std_names()[std_slots()[i].unwrap().0] == i,
{
    std_names_differ();
}

/// What the message functions return. The message that `make_msg` builds has
/// no reply capability, and its sender is whatever the flow wrote there: both
/// are overwritten when it is sent.
pub open spec fn message_native(f: NativeFn, args: Seq<Value>) -> Option<
    Result<Value, FaultView>,
> {
    match f {
        NativeFn::MakeMsg => Some(make_msg_spec(args)),
        NativeFn::MsgSender => Some(
            match message_arg(args, 0, "msg_sender"@) {
                Ok(m) => Ok(Value::Pid(m.sender)),
                Err(e) => Err(e),
            },
        ),
        NativeFn::MsgRequestId => Some(
            match message_arg(args, 0, "msg_request_id"@) {
                Ok(m) => Ok(Value::Int(m.request_id as i64)),
                Err(e) => Err(e),
            },
        ),
        NativeFn::MsgTag => Some(
            match message_arg(args, 0, "msg_tag"@) {
                Ok(m) => Ok(Value::Int(m.tag as i64)),
                Err(e) => Err(e),
            },
        ),
        NativeFn::MsgPayload => Some(
            match message_arg(args, 0, "msg_payload"@) {
                Ok(m) => Ok(Value::Int(m.payload as i64)),
                Err(e) => Err(e),
            },
        ),
        NativeFn::MsgReplyCap => Some(
            match message_arg(args, 0, "msg_reply_cap"@) {
                Ok(m) => Ok(Value::Cap(m.reply_cap)),
                Err(e) => Err(e),
            },
        ),
        _ => None,
    }
}

/// The message that four scalars describe; the tag must fit its field.
pub open spec fn make_msg_spec(args: Seq<Value>) -> Result<Value, FaultView> {
    match u64_arg(args, 0, "make_msg"@) {
        Err(e) => Err(e),
        Ok(sender) => match u64_arg(args, 1, "make_msg"@) {
            Err(e) => Err(e),
            Ok(request_id) => match u64_arg(args, 2, "make_msg"@) {
                Err(e) => Err(e),
                Ok(tag) => match u64_arg(args, 3, "make_msg"@) {
                    Err(e) => Err(e),
                    Ok(payload) => if tag <= u16::MAX {
                        Ok(
                            Value::Message(
                                Message {
                                    sender,
                                    reply_cap: 0,
                                    request_id,
                                    tag: tag as u16,
                                    payload,
                                },
                            ),
                        )
                    } else {
                        Err(
                            FaultView::NativeError(
                                "make_msg: tag "@ + dec(tag as nat) + " does not fit in u16"@,
                            ),
                        )
                    },
                },
            },
        },
    }
}

fn make_msg(args: &[Value]) -> (r: NativeResult)
    ensures
        result_view(r) == make_msg_spec(args@),
{
    let sender: u64 = match expect_u64(args, 0, "make_msg") {
        Ok(n) => n,
        Err(e) => return Err(e),
    };
    let request_id: u64 = match expect_u64(args, 1, "make_msg") {
        Ok(n) => n,
        Err(e) => return Err(e),
    };
    let tag: u64 = match expect_u64(args, 2, "make_msg") {
        Ok(n) => n,
        Err(e) => return Err(e),
    };
    let payload: u64 = match expect_u64(args, 3, "make_msg") {
        Ok(n) => n,
        Err(e) => return Err(e),
    };
    if tag > 0xFFFF {
        let mut s = String::from_str("make_msg: tag ");
        push_dec(&mut s, tag);
        s.append(" does not fit in u16");
        return Err(Fault::NativeError(s));
    }
    Ok(Value::Message(Message::new(sender, request_id, tag as u16, payload)))
}

impl NativeFn {
    /// Compute the function, if it is one on messages. `None` leaves the call
    /// to the host.
    pub fn call(self, args: &[Value]) -> (r: Option<NativeResult>)
        ensures
            match r {
                Some(res) => message_native(self, args@) == Some(result_view(res)),
                None => message_native(self, args@) is None,
            },
    {
        match self {
            NativeFn::MakeMsg => Some(make_msg(args)),
            NativeFn::MsgSender => Some(
                match expect_message(args, 0, "msg_sender") {
                    Ok(m) => Ok(Value::Pid(m.sender)),
                    Err(e) => Err(e),
                },
            ),
            NativeFn::MsgRequestId => Some(
                match expect_message(args, 0, "msg_request_id") {
                    Ok(m) => Ok(Value::Int(m.request_id as i64)),
                    Err(e) => Err(e),
                },
            ),
            NativeFn::MsgTag => Some(
                match expect_message(args, 0, "msg_tag") {
                    Ok(m) => Ok(Value::Int(m.tag as i64)),
                    Err(e) => Err(e),
                },
            ),
            NativeFn::MsgPayload => Some(
                match expect_message(args, 0, "msg_payload") {
                    Ok(m) => Ok(Value::Int(m.payload as i64)),
                    Err(e) => Err(e),
                },
            ),
            NativeFn::MsgReplyCap => Some(
                match expect_message(args, 0, "msg_reply_cap") {
                    Ok(m) => Ok(Value::Cap(m.reply_cap)),
                    Err(e) => Err(e),
                },
            ),
            _ => None,
        }
    }
}

/// Taking a message apart gives back what it was made from: for scalars that
/// stand for unsigned numbers, the tag within its field.
pub proof fn unpack_undoes_make(args: Seq<Value>, sender: u64, id: u64, tag: u64, payload: u64)
    requires
        u64_arg(args, 0, "make_msg"@) == Ok::<u64, FaultView>(sender),
        u64_arg(args, 1, "make_msg"@) == Ok::<u64, FaultView>(id),
        u64_arg(args, 2, "make_msg"@) == Ok::<u64, FaultView>(tag),
        u64_arg(args, 3, "make_msg"@) == Ok::<u64, FaultView>(payload),
        tag <= u16::MAX,
    ensures
        make_msg_spec(args) matches Ok(m) && {
            let one = seq![m];
            &&& message_native(NativeFn::MsgSender, one) == Some(
                Ok::<Value, FaultView>(Value::Pid(sender)),
            )
            &&& message_native(NativeFn::MsgRequestId, one) == Some(
                Ok::<Value, FaultView>(Value::Int(id as i64)),
            )
            &&& message_native(NativeFn::MsgTag, one) == Some(
                Ok::<Value, FaultView>(Value::Int(tag as i64)),
            )
            &&& message_native(NativeFn::MsgPayload, one) == Some(
                Ok::<Value, FaultView>(Value::Int(payload as i64)),
            )
            &&& message_native(NativeFn::MsgReplyCap, one) == Some(
                Ok::<Value, FaultView>(Value::Cap(0)),
            )
        },
{
}

/// The printed line for already rendered values: separated by spaces.
pub open spec fn joined(parts: Seq<Seq<char>>) -> Seq<char>
    decreases parts.len(),
{
    if parts.len() == 0 {
        Seq::empty()
    } else if parts.len() == 1 {
        parts[0]
    } else {
        joined(parts.drop_last()) + " "@ + parts.last()
    }
}

/// The line that `print` writes for values with these texts, without the
/// line's end.
pub fn print_line(parts: &Vec<String>) -> (s: String)
    ensures
        s@ == joined(parts@.map_values(|p: String| p@)),
{
    let mut s = String::new();
    let mut i: usize = 0;
    let ghost all = parts@.map_values(|p: String| p@);
    while i < parts.len()
        invariant
            i <= parts@.len(),
            all == parts@.map_values(|p: String| p@),
            s@ =~= joined(all.take(i as int)),
        decreases parts@.len() - i,
    {
        let ghost before = s@;
        if i > 0 {
            s.append(" ");
        }
        s.append(parts[i].as_str());
        proof {
            assert(all.take(i + 1).drop_last() =~= all.take(i as int));
            assert(all.take(i + 1).last() == parts@[i as int]@);
            if i == 0 {
                assert(before =~= Seq::<char>::empty());
            }
        }
        i = i + 1;
    }
    assert(all.take(parts@.len() as int) =~= all);
    s
}

/// What `print` does with values of these texts: the line that it has written,
/// and what it returns.
pub fn print_native(parts: &Vec<String>) -> (r: (String, NativeResult))
    ensures
        r.0@ == joined(parts@.map_values(|p: String| p@)),
        r.1 == Ok::<Value, Fault>(Value::Unit),
{
    (print_line(parts), Ok(Value::Unit))
}

/// A printed line is its parts in order with one blank between two of them.
pub proof fn line_is_its_parts(parts: Seq<Seq<char>>, part: Seq<char>)
    ensures
        parts.len() == 0 ==> joined(parts).len() == 0,
        parts.len() == 0 ==> joined(parts.push(part)) == part,
        parts.len() > 0 ==> joined(parts.push(part)) == joined(parts).push(' ') + part,
{
    reveal_strlit(" ");
    let more = parts.push(part);
    assert(more.drop_last() =~= parts);
    assert(more.last() == part);
    assert(" "@ =~= seq![' ']);
    assert(joined(parts) + " "@ + part =~= joined(parts).push(' ') + part);
}

} // verus!
