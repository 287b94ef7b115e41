//! Small modules that show how flows are written.
//!
//! Those that exchange messages need the standard native functions.

use vstd::prelude::*;

use crate::bytecode::builder::functions_view;
use crate::bytecode::chunk::{Chunk, FunctionView};
use crate::bytecode::instruction::{ext_instr, instr, Instruction};
use crate::bytecode::opcode::{ExtOpcode, Opcode};
use crate::bytecode::program::Program;
use crate::bytecode::value::{Value, TAG_SYS_DOWN};
use crate::bytecode::verify::verified;

verus! {

/// Indices of native functions.
pub const N_PRINT: u32 = 0;

pub const N_MAKE_MSG: u32 = 2;

/// Tags of the messages.
pub const TAG_REQ: i32 = 1;

pub const TAG_REP: i32 = 2;

pub const TAG_PING: i32 = 10;

pub const TAG_PONG: i32 = 11;

/// Tag of a message that nobody waits for.
pub const TAG_JUNK: i32 = 99;

/// A function of a module: name, first instruction, parameters, registers.
pub open spec fn func(name: Seq<char>, entry: u32, arity: u8, num_registers: u8) -> FunctionView {
    FunctionView { name, entry, arity, num_registers }
}

/// The module has this name, these functions and this code, and no constants.
pub open spec fn listed(
    chunk: Chunk,
    name: Seq<char>,
    functions: Seq<FunctionView>,
    code: Seq<Instruction>,
) -> bool {
    &&& chunk.name@ == name
    &&& chunk.constants@ == Seq::<Value>::empty()
    &&& functions_view(chunk.functions@) == functions
    &&& chunk.code@ == code
}

/// The code of [`add_forty_two`].
pub open spec fn add_forty_two_code() -> Seq<Instruction> {
    seq![
        instr(Opcode::LoadImm, 4, 0, 0, 41),
        instr(Opcode::LoadImm, 5, 0, 0, 1),
        instr(Opcode::Add, 6, 4, 5, 0),
        instr(Opcode::Return, 6, 0, 0, 0),
    ]
}

/// `41 + 1`.
pub fn add_forty_two() -> (chunk: Chunk)
    ensures
        listed(
            chunk,
            "add-forty-two"@,
            seq![
                func("main"@, 0, 0, 7),
            ],
            add_forty_two_code(),
        ),
        verified(chunk),
{
    let mut f = Program::new("add-forty-two").begin("main", 0);
    let a = f.load_i32(41);
    let b = f.load_i32(1);
    let sum = f.add(a, b);
    f.return_(sum);
    let p = Program::end(f);
    let chunk = p.build();
    assert(chunk.code@ =~= add_forty_two_code());
    assert(functions_view(chunk.functions@) =~= seq![
        func("main"@, 0, 0, 7),
    ]);
    assert(chunk.functions@[0]@ == functions_view(chunk.functions@)[0]);
    chunk
}

/// The code of [`ping_pong`].
pub open spec fn ping_pong_code() -> Seq<Instruction> {
    seq![
        instr(Opcode::Receive, 4, 0, 0, 0),
        instr(Opcode::Move, 5, 4, 0, 0),
        instr(Opcode::CallNative, 5, 1, 0, 6),
        instr(Opcode::LoadImm, 6, 0, 0, 1),
        instr(Opcode::Add, 5, 5, 6, 0),
        instr(Opcode::Move, 7, 4, 0, 0),
        instr(Opcode::CallNative, 7, 1, 0, 7),
        instr(Opcode::Move, 8, 4, 0, 0),
        instr(Opcode::CallNative, 8, 1, 0, 4),
        instr(Opcode::LoadImm, 9, 0, 0, 0),
        instr(Opcode::Move, 10, 8, 0, 0),
        instr(Opcode::LoadImm, 11, 0, 0, 11),
        instr(Opcode::Move, 12, 5, 0, 0),
        instr(Opcode::CallNative, 9, 4, 0, 2),
        instr(Opcode::Send, 7, 9, 0, 0),
        instr(Opcode::Exit, 5, 0, 0, 0),
        instr(Opcode::Spawn, 4, 0, 0, 0),
        instr(Opcode::LoadImm, 5, 0, 0, 1),
        instr(Opcode::LoadImm, 6, 0, 0, 1),
        instr(Opcode::LoadImm, 7, 0, 0, 0),
        instr(Opcode::Move, 8, 5, 0, 0),
        instr(Opcode::LoadImm, 9, 0, 0, 10),
        instr(Opcode::Move, 10, 6, 0, 0),
        instr(Opcode::CallNative, 7, 4, 0, 2),
        instr(Opcode::Send, 4, 7, 0, 0),
        instr(Opcode::Receive, 11, 0, 0, 0),
        instr(Opcode::Move, 12, 11, 0, 0),
        instr(Opcode::CallNative, 12, 1, 0, 6),
        instr(Opcode::Return, 12, 0, 0, 0),
    ]
}

/// Two flows and one message each way: `main` sends 1 to `pong`, which
/// answers with one more, and `main` returns that.
pub fn ping_pong() -> (chunk: Chunk)
    ensures
        listed(
            chunk,
            "ping-pong"@,
            seq![
                func("pong"@, 0, 0, 13),
                func("main"@, 16, 0, 13),
            ],
            ping_pong_code(),
        ),
        verified(chunk),
{
    let mut f = Program::new("ping-pong").begin("pong", 0);
    let pong = f.id();
    let msg = f.receive();
    let payload = f.hop_payload(msg);
    f.add_imm(payload, 1);
    f.send_reply(msg, TAG_PONG, payload);
    f.exit(payload);
    let mut f = Program::end(f).begin("main", 0);
    let child = f.spawn(pong, 0);
    let req_id = f.load_i32(1);
    let payload = f.load_i32(1);
    let req = f.hop(req_id, TAG_PING, payload);
    f.send(child, req);
    let reply = f.receive();
    let out = f.hop_payload(reply);
    f.return_(out);
    let p = Program::end(f);
    let chunk = p.build();
    assert(chunk.code@ =~= ping_pong_code());
    assert(functions_view(chunk.functions@) =~= seq![
        func("pong"@, 0, 0, 13),
        func("main"@, 16, 0, 13),
    ]);
    chunk
}

/// The code of [`atomic_request_reply`].
pub open spec fn atomic_request_reply_code() -> Seq<Instruction> {
    seq![
        instr(Opcode::Receive, 4, 0, 0, 0),
        instr(Opcode::Move, 5, 4, 0, 0),
        instr(Opcode::CallNative, 5, 1, 0, 0),
        instr(Opcode::Move, 6, 4, 0, 0),
        instr(Opcode::CallNative, 6, 1, 0, 6),
        instr(Opcode::LoadImm, 7, 0, 0, 1),
        instr(Opcode::Add, 6, 6, 7, 0),
        instr(Opcode::Move, 8, 4, 0, 0),
        instr(Opcode::CallNative, 8, 1, 0, 7),
        instr(Opcode::Move, 9, 4, 0, 0),
        instr(Opcode::CallNative, 9, 1, 0, 4),
        instr(Opcode::LoadImm, 10, 0, 0, 0),
        instr(Opcode::Move, 11, 9, 0, 0),
        instr(Opcode::LoadImm, 12, 0, 0, 2),
        instr(Opcode::Move, 13, 6, 0, 0),
        instr(Opcode::CallNative, 10, 4, 0, 2),
        instr(Opcode::Send, 8, 10, 0, 0),
        instr(Opcode::Exit, 6, 0, 0, 0),
        instr(Opcode::Spawn, 4, 0, 0, 0),
        instr(Opcode::LoadImm, 5, 0, 0, 1),
        instr(Opcode::LoadImm, 6, 0, 0, 41),
        instr(Opcode::LoadImm, 7, 0, 0, 0),
        instr(Opcode::Move, 8, 5, 0, 0),
        instr(Opcode::LoadImm, 9, 0, 0, 1),
        instr(Opcode::Move, 10, 6, 0, 0),
        instr(Opcode::CallNative, 7, 4, 0, 2),
        instr(Opcode::Move, 11, 7, 0, 0),
        instr(Opcode::CallNative, 11, 1, 0, 0),
        instr(Opcode::Send, 4, 7, 0, 0),
        instr(Opcode::Receive, 12, 0, 0, 0),
        instr(Opcode::Move, 13, 12, 0, 0),
        instr(Opcode::CallNative, 13, 1, 0, 0),
        instr(Opcode::Move, 14, 12, 0, 0),
        instr(Opcode::CallNative, 14, 1, 0, 6),
        instr(Opcode::Return, 14, 0, 0, 0),
    ]
}

/// One request and one reply, with every message printed.
pub fn atomic_request_reply() -> (chunk: Chunk)
    ensures
        listed(
            chunk,
            "atomic-request-reply"@,
            seq![
                func("server"@, 0, 0, 14),
                func("main"@, 18, 0, 15),
            ],
            atomic_request_reply_code(),
        ),
        verified(chunk),
{
    let mut f = Program::new("atomic-request-reply").begin("server", 0);
    let server = f.id();
    let msg = f.receive();
    f.native1_on(msg, N_PRINT);
    let payload = f.hop_payload(msg);
    f.add_imm(payload, 1);
    f.send_reply(msg, TAG_REP, payload);
    f.exit(payload);
    let mut f = Program::end(f).begin("main", 0);
    let server_cap = f.spawn(server, 0);
    let req_id = f.load_i32(1);
    let payload = f.load_i32(41);
    let req = f.hop(req_id, TAG_REQ, payload);
    f.native1_on(req, N_PRINT);
    f.send(server_cap, req);
    let reply = f.receive();
    f.native1_on(reply, N_PRINT);
    let out = f.hop_payload(reply);
    f.return_(out);
    let p = Program::end(f);
    let chunk = p.build();
    assert(chunk.code@ =~= atomic_request_reply_code());
    assert(functions_view(chunk.functions@) =~= seq![
        func("server"@, 0, 0, 14),
        func("main"@, 18, 0, 15),
    ]);
    chunk
}

/// The code of [`selective_receive`].
pub open spec fn selective_receive_code() -> Seq<Instruction> {
    seq![
        ext_instr(ExtOpcode::ReceiveMatchImm, 4, 0, 0, 1),
        instr(Opcode::Move, 5, 4, 0, 0),
        instr(Opcode::CallNative, 5, 1, 0, 6),
        instr(Opcode::LoadImm, 6, 0, 0, 1),
        instr(Opcode::Add, 5, 5, 6, 0),
        instr(Opcode::Move, 7, 4, 0, 0),
        instr(Opcode::CallNative, 7, 1, 0, 7),
        instr(Opcode::Move, 8, 4, 0, 0),
        instr(Opcode::CallNative, 8, 1, 0, 4),
        instr(Opcode::LoadImm, 9, 0, 0, 0),
        instr(Opcode::Move, 10, 8, 0, 0),
        instr(Opcode::LoadImm, 11, 0, 0, 2),
        instr(Opcode::Move, 12, 5, 0, 0),
        instr(Opcode::CallNative, 9, 4, 0, 2),
        instr(Opcode::Send, 7, 9, 0, 0),
        instr(Opcode::Receive, 13, 0, 0, 0),
        instr(Opcode::Move, 14, 13, 0, 0),
        instr(Opcode::CallNative, 14, 1, 0, 5),
        instr(Opcode::LoadImm, 6, 0, 0, 99),
        instr(Opcode::Eq, 15, 14, 6, 0),
        instr(Opcode::Branch, 15, 0, 0, 1),
        instr(Opcode::Exit, 5, 0, 0, 0),
        instr(Opcode::Trap, 0, 0, 0, 2),
        instr(Opcode::Spawn, 4, 0, 0, 0),
        instr(Opcode::LoadImm, 5, 0, 0, 1),
        instr(Opcode::LoadImm, 6, 0, 0, 0),
        instr(Opcode::LoadImm, 7, 0, 0, 0),
        instr(Opcode::Move, 8, 5, 0, 0),
        instr(Opcode::LoadImm, 9, 0, 0, 99),
        instr(Opcode::Move, 10, 6, 0, 0),
        instr(Opcode::CallNative, 7, 4, 0, 2),
        instr(Opcode::Send, 4, 7, 0, 0),
        instr(Opcode::LoadImm, 11, 0, 0, 41),
        instr(Opcode::LoadImm, 12, 0, 0, 0),
        instr(Opcode::Move, 13, 5, 0, 0),
        instr(Opcode::LoadImm, 14, 0, 0, 1),
        instr(Opcode::Move, 15, 11, 0, 0),
        instr(Opcode::CallNative, 12, 4, 0, 2),
        instr(Opcode::Send, 4, 12, 0, 0),
        ext_instr(ExtOpcode::ReceiveMatchImm, 16, 0, 0, 2),
        instr(Opcode::Move, 17, 16, 0, 0),
        instr(Opcode::CallNative, 17, 1, 0, 6),
        instr(Opcode::Return, 17, 0, 0, 0),
    ]
}

/// A server that waits for a request while another message lies before it in
/// its mailbox. The other message stays there.
pub fn selective_receive() -> (chunk: Chunk)
    ensures
        listed(
            chunk,
            "selective-receive"@,
            seq![
                func("server"@, 0, 0, 16),
                func("main"@, 23, 0, 18),
            ],
            selective_receive_code(),
        ),
        verified(chunk),
{
    let mut f = Program::new("selective-receive").begin("server", 0);
    let server = f.id();
    let msg = f.receive_match_imm(TAG_REQ as u16);
    let payload = f.hop_payload(msg);
    f.add_imm(payload, 1);
    f.send_reply(msg, TAG_REP, payload);
    let junk = f.receive();
    let tag = f.hop_tag(junk);
    let is_junk = f.eq_imm(tag, TAG_JUNK);
    let trap_lbl = f.label();
    f.branch_if_falsy(is_junk, trap_lbl);
    f.exit(payload);
    f.bind(trap_lbl);
    f.trap(2);
    let mut f = Program::end(f).begin("main", 0);
    let server_cap = f.spawn(server, 0);
    let req_id = f.load_i32(1);
    let zero = f.load_i32(0);
    let junk = f.hop(req_id, TAG_JUNK, zero);
    f.send(server_cap, junk);
    let payload = f.load_i32(41);
    let req = f.hop(req_id, TAG_REQ, payload);
    f.send(server_cap, req);
    let reply = f.receive_match_imm(TAG_REP as u16);
    let out = f.hop_payload(reply);
    f.return_(out);
    let p = Program::end(f);
    let chunk = p.build();
    proof {
        reveal_with_fuel(crate::bytecode::builder::patched, 2);
    }
    assert(chunk.code@ =~= selective_receive_code());
    assert(functions_view(chunk.functions@) =~= seq![
        func("server"@, 0, 0, 16),
        func("main"@, 23, 0, 18),
    ]);
    chunk
}

/// The code of [`ask_reply`].
pub open spec fn ask_reply_code() -> Seq<Instruction> {
    seq![
        ext_instr(ExtOpcode::ReceiveMatchImm, 4, 0, 0, 1),
        instr(Opcode::Move, 5, 4, 0, 0),
        instr(Opcode::CallNative, 5, 1, 0, 6),
        instr(Opcode::LoadImm, 6, 0, 0, 1),
        instr(Opcode::Add, 5, 5, 6, 0),
        instr(Opcode::Move, 7, 4, 0, 0),
        instr(Opcode::CallNative, 7, 1, 0, 7),
        instr(Opcode::Move, 8, 4, 0, 0),
        instr(Opcode::CallNative, 8, 1, 0, 4),
        instr(Opcode::LoadImm, 9, 0, 0, 0),
        instr(Opcode::Move, 10, 8, 0, 0),
        instr(Opcode::LoadImm, 11, 0, 0, 2),
        instr(Opcode::Move, 12, 5, 0, 0),
        instr(Opcode::CallNative, 9, 4, 0, 2),
        instr(Opcode::Send, 7, 9, 0, 0),
        instr(Opcode::Exit, 5, 0, 0, 0),
        instr(Opcode::Spawn, 4, 0, 0, 0),
        instr(Opcode::LoadImm, 5, 0, 0, 1),
        instr(Opcode::LoadImm, 6, 0, 0, 41),
        instr(Opcode::LoadImm, 7, 0, 0, 0),
        instr(Opcode::Move, 8, 5, 0, 0),
        instr(Opcode::LoadImm, 9, 0, 0, 1),
        instr(Opcode::Move, 10, 6, 0, 0),
        instr(Opcode::CallNative, 7, 4, 0, 2),
        ext_instr(ExtOpcode::Ask, 11, 4, 7, 0),
        instr(Opcode::Move, 12, 11, 0, 0),
        instr(Opcode::CallNative, 12, 1, 0, 6),
        instr(Opcode::Return, 12, 0, 0, 0),
    ]
}

/// One request and one reply by `Ask`.
pub fn ask_reply() -> (chunk: Chunk)
    ensures
        listed(
            chunk,
            "ask-reply"@,
            seq![
                func("server"@, 0, 0, 13),
                func("main"@, 16, 0, 13),
            ],
            ask_reply_code(),
        ),
        verified(chunk),
{
    let mut f = Program::new("ask-reply").begin("server", 0);
    let server = f.id();
    let msg = f.receive_match_imm(TAG_REQ as u16);
    let payload = f.hop_payload(msg);
    f.add_imm(payload, 1);
    f.send_reply(msg, TAG_REP, payload);
    f.exit(payload);
    let mut f = Program::end(f).begin("main", 0);
    let server_cap = f.spawn(server, 0);
    let req_id = f.load_i32(1);
    let payload = f.load_i32(41);
    let req = f.hop(req_id, TAG_REQ, payload);
    let reply = f.ask(server_cap, req);
    let out = f.hop_payload(reply);
    f.return_(out);
    let p = Program::end(f);
    let chunk = p.build();
    assert(chunk.code@ =~= ask_reply_code());
    assert(functions_view(chunk.functions@) =~= seq![
        func("server"@, 0, 0, 13),
        func("main"@, 16, 0, 13),
    ]);
    chunk
}

/// The code of [`ask_timeout_expires`].
pub open spec fn ask_timeout_expires_code() -> Seq<Instruction> {
    seq![
        instr(Opcode::Receive, 4, 0, 0, 0),
        instr(Opcode::LoadImm, 5, 0, 0, 10000),
        instr(Opcode::Sleep, 5, 0, 0, 0),
        instr(Opcode::LoadImm, 6, 0, 0, 0),
        instr(Opcode::Return, 6, 0, 0, 0),
        instr(Opcode::Spawn, 4, 0, 0, 0),
        instr(Opcode::LoadImm, 5, 0, 0, 1),
        instr(Opcode::LoadImm, 6, 0, 0, 0),
        instr(Opcode::LoadImm, 7, 0, 0, 0),
        instr(Opcode::Move, 8, 5, 0, 0),
        instr(Opcode::LoadImm, 9, 0, 0, 1),
        instr(Opcode::Move, 10, 6, 0, 0),
        instr(Opcode::CallNative, 7, 4, 0, 2),
        instr(Opcode::LoadImm, 11, 0, 0, 40),
        ext_instr(ExtOpcode::AskTimeout, 12, 4, 7, 11),
        instr(Opcode::Return, 12, 0, 0, 0),
    ]
}

/// `AskTimeout` to a server that never answers: `Unit`.
pub fn ask_timeout_expires() -> (chunk: Chunk)
    ensures
        listed(
            chunk,
            "ask-timeout"@,
            seq![
                func("server"@, 0, 0, 7),
                func("main"@, 5, 0, 13),
            ],
            ask_timeout_expires_code(),
        ),
        verified(chunk),
{
    let mut f = Program::new("ask-timeout").begin("server", 0);
    let server = f.id();
    let _msg = f.receive();
    let ms = f.load_i32(10_000);
    f.sleep(ms);
    let zero = f.load_i32(0);
    f.return_(zero);
    let mut f = Program::end(f).begin("main", 0);
    let server_cap = f.spawn(server, 0);
    let req_id = f.load_i32(1);
    let payload = f.load_i32(0);
    let req = f.hop(req_id, TAG_REQ, payload);
    let ms = f.load_i32(40);
    let reply = f.ask_timeout(server_cap, req, ms);
    f.return_(reply);
    let p = Program::end(f);
    let chunk = p.build();
    assert(chunk.code@ =~= ask_timeout_expires_code());
    assert(functions_view(chunk.functions@) =~= seq![
        func("server"@, 0, 0, 7),
        func("main"@, 5, 0, 13),
    ]);
    chunk
}

/// The code of [`ask_target_exits`].
pub open spec fn ask_target_exits_code() -> Seq<Instruction> {
    seq![
        instr(Opcode::Receive, 4, 0, 0, 0),
        instr(Opcode::LoadImm, 5, 0, 0, 0),
        instr(Opcode::Return, 5, 0, 0, 0),
        instr(Opcode::Spawn, 4, 0, 0, 0),
        instr(Opcode::LoadImm, 5, 0, 0, 1),
        instr(Opcode::LoadImm, 6, 0, 0, 0),
        instr(Opcode::LoadImm, 7, 0, 0, 0),
        instr(Opcode::Move, 8, 5, 0, 0),
        instr(Opcode::LoadImm, 9, 0, 0, 1),
        instr(Opcode::Move, 10, 6, 0, 0),
        instr(Opcode::CallNative, 7, 4, 0, 2),
        ext_instr(ExtOpcode::Ask, 11, 4, 7, 0),
        instr(Opcode::Move, 12, 11, 0, 0),
        instr(Opcode::CallNative, 12, 1, 0, 5),
        instr(Opcode::Return, 12, 0, 0, 0),
    ]
}

/// `Ask` to a server that takes the request and ends: the asker gets a notice.
pub fn ask_target_exits() -> (chunk: Chunk)
    ensures
        listed(
            chunk,
            "ask-target-exits"@,
            seq![
                func("server"@, 0, 0, 6),
                func("main"@, 3, 0, 13),
            ],
            ask_target_exits_code(),
        ),
        verified(chunk),
{
    let mut f = Program::new("ask-target-exits").begin("server", 0);
    let server = f.id();
    let _msg = f.receive();
    let z = f.load_i32(0);
    f.return_(z);
    let mut f = Program::end(f).begin("main", 0);
    let server_cap = f.spawn(server, 0);
    let req_id = f.load_i32(1);
    let payload = f.load_i32(0);
    let req = f.hop(req_id, TAG_REQ, payload);
    let reply = f.ask(server_cap, req);
    let tag = f.hop_tag(reply);
    f.return_(tag);
    let p = Program::end(f);
    let chunk = p.build();
    assert(chunk.code@ =~= ask_target_exits_code());
    assert(functions_view(chunk.functions@) =~= seq![
        func("server"@, 0, 0, 6),
        func("main"@, 3, 0, 13),
    ]);
    chunk
}

/// The code of [`server_loop`].
pub open spec fn server_loop_code() -> Seq<Instruction> {
    seq![
        ext_instr(ExtOpcode::ReceiveMatchImm, 4, 0, 0, 1),
        instr(Opcode::Move, 5, 4, 0, 0),
        instr(Opcode::CallNative, 5, 1, 0, 6),
        instr(Opcode::LoadImm, 6, 0, 0, 1),
        instr(Opcode::Add, 5, 5, 6, 0),
        instr(Opcode::Move, 7, 4, 0, 0),
        instr(Opcode::CallNative, 7, 1, 0, 7),
        instr(Opcode::Move, 8, 4, 0, 0),
        instr(Opcode::CallNative, 8, 1, 0, 4),
        instr(Opcode::LoadImm, 9, 0, 0, 0),
        instr(Opcode::Move, 10, 8, 0, 0),
        instr(Opcode::LoadImm, 11, 0, 0, 2),
        instr(Opcode::Move, 12, 5, 0, 0),
        instr(Opcode::CallNative, 9, 4, 0, 2),
        instr(Opcode::Send, 7, 9, 0, 0),
        instr(Opcode::Jump, 0, 0, 0, (-16) as i32),
        instr(Opcode::Spawn, 4, 0, 0, 0),
        instr(Opcode::LoadImm, 5, 0, 0, 1),
        instr(Opcode::LoadImm, 6, 0, 0, 41),
        instr(Opcode::LoadImm, 7, 0, 0, 0),
        instr(Opcode::Move, 8, 5, 0, 0),
        instr(Opcode::LoadImm, 9, 0, 0, 1),
        instr(Opcode::Move, 10, 6, 0, 0),
        instr(Opcode::CallNative, 7, 4, 0, 2),
        instr(Opcode::Send, 4, 7, 0, 0),
        ext_instr(ExtOpcode::ReceiveMatchImm, 11, 0, 0, 2),
        instr(Opcode::Move, 12, 11, 0, 0),
        instr(Opcode::CallNative, 12, 1, 0, 6),
        instr(Opcode::Return, 12, 0, 0, 0),
    ]
}

/// A server that answers requests for ever.
pub fn server_loop() -> (chunk: Chunk)
    ensures
        listed(
            chunk,
            "server-loop"@,
            seq![
                func("server"@, 0, 0, 13),
                func("main"@, 16, 0, 13),
            ],
            server_loop_code(),
        ),
        verified(chunk),
{
    let mut f = Program::new("server-loop").begin("server", 0);
    let server = f.id();
    let loop_lbl = f.label();
    f.bind(loop_lbl);
    let req = f.receive_match_imm(TAG_REQ as u16);
    let payload = f.hop_payload(req);
    f.add_imm(payload, 1);
    f.send_reply(req, TAG_REP, payload);
    f.jump(loop_lbl);
    let mut f = Program::end(f).begin("main", 0);
    let server_cap = f.spawn(server, 0);
    let req_id = f.load_i32(1);
    let payload = f.load_i32(41);
    let req = f.hop(req_id, TAG_REQ, payload);
    f.send(server_cap, req);
    let reply = f.receive_match_imm(TAG_REP as u16);
    let out = f.hop_payload(reply);
    f.return_(out);
    let p = Program::end(f);
    let chunk = p.build();
    proof {
        reveal_with_fuel(crate::bytecode::builder::patched, 2);
    }
    assert(chunk.code@ =~= server_loop_code());
    assert(functions_view(chunk.functions@) =~= seq![
        func("server"@, 0, 0, 13),
        func("main"@, 16, 0, 13),
    ]);
    chunk
}

/// The code of [`forged_sender_send`].
pub open spec fn forged_sender_send_code() -> Seq<Instruction> {
    seq![
        instr(Opcode::Receive, 4, 0, 0, 0),
        instr(Opcode::Move, 5, 4, 0, 0),
        instr(Opcode::CallNative, 5, 1, 0, 3),
        instr(Opcode::Move, 6, 4, 0, 0),
        instr(Opcode::CallNative, 6, 1, 0, 7),
        instr(Opcode::Move, 7, 4, 0, 0),
        instr(Opcode::CallNative, 7, 1, 0, 4),
        instr(Opcode::LoadImm, 8, 0, 0, 0),
        instr(Opcode::Move, 9, 7, 0, 0),
        instr(Opcode::LoadImm, 10, 0, 0, 2),
        instr(Opcode::Move, 11, 5, 0, 0),
        instr(Opcode::CallNative, 8, 4, 0, 2),
        instr(Opcode::Send, 6, 8, 0, 0),
        instr(Opcode::Exit, 5, 0, 0, 0),
        instr(Opcode::Spawn, 4, 0, 0, 0),
        instr(Opcode::LoadImm, 5, 0, 0, 999),
        instr(Opcode::LoadImm, 6, 0, 0, 1),
        instr(Opcode::LoadImm, 7, 0, 0, 0),
        instr(Opcode::Move, 8, 5, 0, 0),
        instr(Opcode::Move, 9, 6, 0, 0),
        instr(Opcode::LoadImm, 10, 0, 0, 1),
        instr(Opcode::Move, 11, 7, 0, 0),
        instr(Opcode::CallNative, 8, 4, 0, 2),
        instr(Opcode::Send, 4, 8, 0, 0),
        instr(Opcode::Receive, 12, 0, 0, 0),
        instr(Opcode::Move, 13, 12, 0, 0),
        instr(Opcode::CallNative, 13, 1, 0, 6),
        instr(Opcode::Move, 14, 13, 0, 0),
        instr(Opcode::Move, 15, 6, 0, 0),
        instr(Opcode::LoadImm, 16, 0, 0, 2),
        instr(Opcode::Move, 17, 7, 0, 0),
        instr(Opcode::CallNative, 14, 4, 0, 2),
        instr(Opcode::Move, 18, 14, 0, 0),
        instr(Opcode::CallNative, 18, 1, 0, 3),
        instr(Opcode::Return, 18, 0, 0, 0),
    ]
}

/// A message with a forged sender is sent; the server answers with the sender
/// that it saw, which `main` returns as a pid.
pub fn forged_sender_send() -> (chunk: Chunk)
    ensures
        listed(
            chunk,
            "forged-sender-send"@,
            seq![
                func("server"@, 0, 0, 12),
                func("main"@, 14, 0, 19),
            ],
            forged_sender_send_code(),
        ),
        verified(chunk),
{
    let mut f = Program::new("forged-sender-send").begin("server", 0);
    let server = f.id();
    let msg = f.receive();
    let sender = f.hop_sender(msg);
    f.send_reply(msg, TAG_REP, sender);
    f.exit(sender);
    let mut f = Program::end(f).begin("main", 0);
    let server_cap = f.spawn(server, 0);
    let forged = f.load_i32(999);
    let req_id = f.load_i32(1);
    let zero = f.load_i32(0);
    let req = f.make_msg_legacy_sender(N_MAKE_MSG, forged, req_id, TAG_REQ, zero);
    f.send(server_cap, req);
    let reply = f.receive();
    let out = f.hop_payload(reply);
    let seen = f.make_msg_legacy_sender(N_MAKE_MSG, out, req_id, TAG_REP, zero);
    let pid = f.hop_sender(seen);
    f.return_(pid);
    let p = Program::end(f);
    let chunk = p.build();
    assert(chunk.code@ =~= forged_sender_send_code());
    assert(functions_view(chunk.functions@) =~= seq![
        func("server"@, 0, 0, 12),
        func("main"@, 14, 0, 19),
    ]);
    chunk
}

/// The code of [`forged_sender_ask`].
pub open spec fn forged_sender_ask_code() -> Seq<Instruction> {
    seq![
        ext_instr(ExtOpcode::ReceiveMatchImm, 4, 0, 0, 1),
        instr(Opcode::Move, 5, 4, 0, 0),
        instr(Opcode::CallNative, 5, 1, 0, 3),
        instr(Opcode::Move, 6, 4, 0, 0),
        instr(Opcode::CallNative, 6, 1, 0, 7),
        instr(Opcode::Move, 7, 4, 0, 0),
        instr(Opcode::CallNative, 7, 1, 0, 4),
        instr(Opcode::LoadImm, 8, 0, 0, 0),
        instr(Opcode::Move, 9, 7, 0, 0),
        instr(Opcode::LoadImm, 10, 0, 0, 2),
        instr(Opcode::Move, 11, 5, 0, 0),
        instr(Opcode::CallNative, 8, 4, 0, 2),
        instr(Opcode::Send, 6, 8, 0, 0),
        instr(Opcode::Exit, 5, 0, 0, 0),
        instr(Opcode::Spawn, 4, 0, 0, 0),
        instr(Opcode::LoadImm, 5, 0, 0, 999),
        instr(Opcode::LoadImm, 6, 0, 0, 1),
        instr(Opcode::LoadImm, 7, 0, 0, 0),
        instr(Opcode::Move, 8, 5, 0, 0),
        instr(Opcode::Move, 9, 6, 0, 0),
        instr(Opcode::LoadImm, 10, 0, 0, 1),
        instr(Opcode::Move, 11, 7, 0, 0),
        instr(Opcode::CallNative, 8, 4, 0, 2),
        ext_instr(ExtOpcode::Ask, 12, 4, 8, 0),
        instr(Opcode::Move, 13, 12, 0, 0),
        instr(Opcode::CallNative, 13, 1, 0, 6),
        instr(Opcode::Move, 14, 13, 0, 0),
        instr(Opcode::Move, 15, 6, 0, 0),
        instr(Opcode::LoadImm, 16, 0, 0, 2),
        instr(Opcode::Move, 17, 7, 0, 0),
        instr(Opcode::CallNative, 14, 4, 0, 2),
        instr(Opcode::Move, 18, 14, 0, 0),
        instr(Opcode::CallNative, 18, 1, 0, 3),
        instr(Opcode::Return, 18, 0, 0, 0),
    ]
}

/// A message with a forged sender is asked with; the server answers with the
/// sender that it saw, which `main` returns as a pid.
pub fn forged_sender_ask() -> (chunk: Chunk)
    ensures
        listed(
            chunk,
            "forged-sender-ask"@,
            seq![
                func("server"@, 0, 0, 12),
                func("main"@, 14, 0, 19),
            ],
            forged_sender_ask_code(),
        ),
        verified(chunk),
{
    let mut f = Program::new("forged-sender-ask").begin("server", 0);
    let server = f.id();
    let msg = f.receive_match_imm(TAG_REQ as u16);
    let sender = f.hop_sender(msg);
    f.send_reply(msg, TAG_REP, sender);
    f.exit(sender);
    let mut f = Program::end(f).begin("main", 0);
    let server_cap = f.spawn(server, 0);
    let forged = f.load_i32(999);
    let req_id = f.load_i32(1);
    let zero = f.load_i32(0);
    let req = f.make_msg_legacy_sender(N_MAKE_MSG, forged, req_id, TAG_REQ, zero);
    let reply = f.ask(server_cap, req);
    let out = f.hop_payload(reply);
    let seen = f.make_msg_legacy_sender(N_MAKE_MSG, out, req_id, TAG_REP, zero);
    let pid = f.hop_sender(seen);
    f.return_(pid);
    let p = Program::end(f);
    let chunk = p.build();
    assert(chunk.code@ =~= forged_sender_ask_code());
    assert(functions_view(chunk.functions@) =~= seq![
        func("server"@, 0, 0, 12),
        func("main"@, 14, 0, 19),
    ]);
    chunk
}

/// The code of [`monitor_down`].
pub open spec fn monitor_down_code() -> Seq<Instruction> {
    seq![
        instr(Opcode::LoadImm, 4, 0, 0, 40),
        instr(Opcode::Sleep, 4, 0, 0, 0),
        instr(Opcode::LoadImm, 5, 0, 0, 0),
        instr(Opcode::Return, 5, 0, 0, 0),
        instr(Opcode::Spawn, 4, 0, 0, 0),
        ext_instr(ExtOpcode::Monitor, 5, 4, 0, 0),
        ext_instr(ExtOpcode::ReceiveMatchImm, 6, 0, 0, TAG_SYS_DOWN as i32),
        instr(Opcode::Move, 7, 6, 0, 0),
        instr(Opcode::CallNative, 7, 1, 0, 4),
        instr(Opcode::Eq, 8, 7, 5, 0),
        instr(Opcode::Branch, 8, 0, 0, 3),
        instr(Opcode::Move, 9, 6, 0, 0),
        instr(Opcode::CallNative, 9, 1, 0, 6),
        instr(Opcode::Return, 9, 0, 0, 0),
        instr(Opcode::Trap, 0, 0, 0, 3),
    ]
}

/// A parent that monitors its child and returns the reason of its end.
pub fn monitor_down() -> (chunk: Chunk)
    ensures
        listed(
            chunk,
            "monitor-down"@,
            seq![
                func("child"@, 0, 0, 6),
                func("main"@, 4, 0, 10),
            ],
            monitor_down_code(),
        ),
        verified(chunk),
{
    let mut f = Program::new("monitor-down").begin("child", 0);
    let child = f.id();
    let ms = f.load_i32(40);
    f.sleep(ms);
    let z = f.load_i32(0);
    f.return_(z);
    let mut f = Program::end(f).begin("main", 0);
    let cap = f.spawn(child, 0);
    let mon = f.monitor(cap);
    let msg = f.receive_match_imm(TAG_SYS_DOWN);
    let id = f.hop_request_id(msg);
    let ok = f.eq(id, mon);
    let trap = f.label();
    f.branch_if_falsy(ok, trap);
    let out = f.hop_payload(msg);
    f.return_(out);
    f.bind(trap);
    f.trap(3);
    let p = Program::end(f);
    let chunk = p.build();
    proof {
        reveal_with_fuel(crate::bytecode::builder::patched, 2);
    }
    assert(chunk.code@ =~= monitor_down_code());
    assert(functions_view(chunk.functions@) =~= seq![
        func("child"@, 0, 0, 6),
        func("main"@, 4, 0, 10),
    ]);
    chunk
}

/// The code of [`waiting_send`].
pub open spec fn waiting_send_code() -> Seq<Instruction> {
    seq![
        instr(Opcode::LoadImm, 4, 0, 0, 50),
        instr(Opcode::Sleep, 4, 0, 0, 0),
        instr(Opcode::Receive, 5, 0, 0, 0),
        instr(Opcode::Receive, 6, 0, 0, 0),
        instr(Opcode::Move, 7, 6, 0, 0),
        instr(Opcode::CallNative, 7, 1, 0, 6),
        instr(Opcode::Return, 7, 0, 0, 0),
        instr(Opcode::LoadImm, 4, 0, 0, 1),
        instr(Opcode::LoadImm, 5, 0, 0, 1),
        instr(Opcode::LoadImm, 6, 0, 0, 0),
        instr(Opcode::Move, 7, 4, 0, 0),
        instr(Opcode::LoadImm, 8, 0, 0, 1),
        instr(Opcode::Move, 9, 5, 0, 0),
        instr(Opcode::CallNative, 6, 4, 0, 2),
        instr(Opcode::Send, 0, 6, 0, 0),
        instr(Opcode::LoadImm, 10, 0, 0, 42),
        instr(Opcode::LoadImm, 11, 0, 0, 0),
        instr(Opcode::Move, 12, 4, 0, 0),
        instr(Opcode::LoadImm, 13, 0, 0, 1),
        instr(Opcode::Move, 14, 10, 0, 0),
        instr(Opcode::CallNative, 11, 4, 0, 2),
        instr(Opcode::Send, 0, 11, 0, 0),
        instr(Opcode::Exit, 11, 0, 0, 0),
    ]
}

/// A client that sends two messages to the server in `r0`. If the server's
/// mailbox has room for one, the client waits until the first is received.
pub fn waiting_send() -> (chunk: Chunk)
    ensures
        listed(
            chunk,
            "waiting-send"@,
            seq![
                func("server"@, 0, 0, 8),
                func("client"@, 7, 1, 15),
            ],
            waiting_send_code(),
        ),
        verified(chunk),
{
    let mut f = Program::new("waiting-send").begin("server", 0);
    let ms = f.load_i32(50);
    f.sleep(ms);
    let _first = f.receive();
    let second = f.receive();
    let out = f.hop_payload(second);
    f.return_(out);
    let mut f = Program::end(f).begin("client", 1);
    let server = f.reg(0);
    let req_id = f.load_i32(1);
    let one = f.load_i32(1);
    let first = f.hop(req_id, TAG_REQ, one);
    f.send(server, first);
    let forty_two = f.load_i32(42);
    let second = f.hop(req_id, TAG_REQ, forty_two);
    f.send(server, second);
    f.exit(second);
    let p = Program::end(f);
    let chunk = p.build();
    assert(chunk.code@ =~= waiting_send_code());
    assert(functions_view(chunk.functions@) =~= seq![
        func("server"@, 0, 0, 8),
        func("client"@, 7, 1, 15),
    ]);
    chunk
}

/// The code of [`boom`].
pub open spec fn boom_code() -> Seq<Instruction> {
    seq![
        instr(Opcode::Trap, 0, 0, 0, 1),
    ]
}

/// A flow that traps at once.
pub fn boom() -> (chunk: Chunk)
    ensures
        listed(
            chunk,
            "boom"@,
            seq![
                func("boom"@, 0, 0, 4),
            ],
            boom_code(),
        ),
        verified(chunk),
{
    let mut f = Program::new("boom").begin("boom", 0);
    f.trap(1);
    let p = Program::end(f);
    let chunk = p.build();
    assert(chunk.code@ =~= boom_code());
    assert(functions_view(chunk.functions@) =~= seq![
        func("boom"@, 0, 0, 4),
    ]);
    assert(chunk.functions@[0]@ == functions_view(chunk.functions@)[0]);
    chunk
}

} // verus!
