//! Values, modules and their assembly.

use std::sync::Arc;

use byteflow::bytecode::builder::ChunkBuilder;
use byteflow::bytecode::cap::{Cap, CapRights, CapTarget, NativeMask, RevocationCell};
use byteflow::bytecode::chunk::{Chunk, FunctionDef};
use byteflow::bytecode::instruction::Instruction;
use byteflow::bytecode::opcode::{ExtOpcode, Op, Opcode};
use byteflow::bytecode::program::Program;
use byteflow::bytecode::value::{Message, Value, TAG_SYS_DOWN, TAG_SYS_EXIT};
use byteflow::bytecode::verify::{verify, VerifyError};
use byteflow::vm::machine::Vm;
use byteflow::vm::native::NativeTable;
use byteflow::vm::result::VmResult;

type TestResult = Result<(), String>;

#[test]
fn message_is_truthy_and_round_trips_helpers() {
    let m = Message::new(7, 99, 10, 1);
    let v = Value::Message(m);
    assert!(v.is_truthy());
    assert_eq!(v.as_message(), Some(m));
    assert_eq!(v.type_label(), "message");
}

#[test]
fn authenticate_stamps_sender_and_reply_cap() {
    let m = Message::new(999, 1, 2, 3).authenticate(42, 7);
    assert_eq!(m.sender, 42);
    assert_eq!(m.reply_cap, 7);
    assert_eq!(m.request_id, 1);
}

#[test]
fn cap_is_truthy() {
    assert!(Value::Cap(1).is_truthy());
    assert_eq!(Value::Cap(3).as_cap(), Some(3));
}

#[test]
fn str_and_bytes_helpers() {
    let s = Value::str("hi");
    assert_eq!(s.as_str(), Some("hi"));
    assert_eq!(s.type_label(), "str");
    assert!(s.is_truthy());
    assert!(!Value::str("").is_truthy());

    let b = Value::bytes(&[1u8, 2, 3]);
    assert_eq!(b.as_bytes(), Some(&[1, 2, 3][..]));
    assert_eq!(b.type_label(), "bytes");
    assert!(b.is_truthy());
    assert!(!Value::bytes(&[]).is_truthy());

    assert_eq!(s.as_bytes(), Some(b"hi".as_slice()));
}

#[test]
fn str_eq_compares_content() {
    assert_eq!(Value::str("a"), Value::from("a".to_owned()));
    assert_ne!(Value::str("a"), Value::str("b"));
    assert_eq!(Value::bytes(&[9]), Value::from(vec![9u8]));
}

#[test]
fn falsy_values_are_exactly_these() {
    assert!(!Value::Unit.is_truthy());
    assert!(!Value::Bool(false).is_truthy());
    assert!(!Value::Int(0).is_truthy());
    assert!(Value::Bool(true).is_truthy());
    assert!(Value::Int(-1).is_truthy());
    assert!(Value::Pid(0).is_truthy());
}

#[test]
fn floats_compare_like_numbers() {
    let nan = Value::Float(f64::NAN.to_bits());
    assert_ne!(nan, nan.clone());
    assert_eq!(Value::Float(0f64.to_bits()), Value::Float((-0f64).to_bits()));
    assert_ne!(Value::Float(1f64.to_bits()), Value::Float(2f64.to_bits()));
}

#[test]
fn texts_of_values() {
    assert_eq!(Value::Unit.to_text(), Some("()".to_owned()));
    assert_eq!(Value::Bool(true).to_text(), Some("true".to_owned()));
    assert_eq!(Value::Int(i64::MIN).to_text(), Some("-9223372036854775808".to_owned()));
    assert_eq!(Value::str("hello").to_text(), Some("hello".to_owned()));
    assert_eq!(Value::Float(0).to_text(), None);
}

#[test]
fn notices_of_the_runtime() {
    let down = Message::down(5, 7, 2);
    assert!(down.is_down() && !down.is_exit());
    assert_eq!((down.request_id, down.sender, down.payload), (5, 7, 2));
    assert_eq!(down.tag, TAG_SYS_DOWN);
    let exit = Message::linked_exit(7, 1);
    assert!(exit.is_exit() && !exit.is_down());
    assert_eq!((exit.sender, exit.payload, exit.tag), (7, 1, TAG_SYS_EXIT));
}

#[test]
fn a_reply_keeps_the_correlation_token() {
    let req = Message::request(31, 1, 5);
    let rep = Message::reply_to(&req, 2, 6);
    assert_eq!((rep.request_id, rep.tag, rep.payload), (31, 2, 6));
}

#[test]
fn rejects_empty_function_table() {
    let chunk = Chunk::default();
    assert_eq!(verify(&chunk), Err(VerifyError::EmptyFunctionTable));
}

#[test]
fn accepts_well_formed_chunk() {
    let mut b = ChunkBuilder::new("test");
    b.begin_function("main", 0, 2);
    let k = b.const_(Value::Int(41));
    b.emit_load_const(0, k);
    b.emit_load_imm(1, 1);
    b.emit_binop(Opcode::Add, 0, 0, 1);
    b.emit_return(0);
    let chunk = b.finish();
    assert!(verify(&chunk).is_ok());
}

#[test]
fn rejects_arity_larger_than_the_register_file() {
    let mut b = ChunkBuilder::new("test");
    b.begin_function("main", 3, 1);
    b.emit_return(0);
    let chunk = b.finish();
    assert_eq!(
        verify(&chunk),
        Err(VerifyError::ArityExceedsRegisters { function: 0, arity: 3, num_registers: 1 })
    );
}

#[test]
fn accepts_arity_equal_to_the_register_file() {
    let mut b = ChunkBuilder::new("test");
    b.begin_function("main", 2, 2);
    b.emit_return(0);
    let chunk = b.finish();
    assert!(verify(&chunk).is_ok());
}

fn one_function(code: Vec<Instruction>) -> Chunk {
    let mut chunk = Chunk::default();
    chunk.functions.push(FunctionDef {
        name: "main".to_owned(),
        entry: 0,
        arity: 0,
        num_registers: 1,
    });
    chunk.code = code;
    chunk
}

#[test]
fn rejects_out_of_range_jump() {
    let chunk = one_function(vec![Instruction::only_imm(Opcode::Jump, 999)]);
    assert!(matches!(verify(&chunk), Err(VerifyError::JumpOutOfRange { .. })));
}

#[test]
fn a_jump_to_just_behind_the_code_is_sound() {
    let chunk = one_function(vec![Instruction::only_imm(Opcode::Jump, 0)]);
    assert!(verify(&chunk).is_ok());
    let chunk = one_function(vec![Instruction::only_imm(Opcode::Jump, -2)]);
    assert!(matches!(verify(&chunk), Err(VerifyError::JumpOutOfRange { at: 0, target: -1, len: 1 })));
}

#[test]
fn rejects_missing_constants_functions_and_entries() {
    let chunk = one_function(vec![Instruction::a_imm(Opcode::LoadConst, 0, 0)]);
    assert_eq!(verify(&chunk), Err(VerifyError::ConstOutOfRange { at: 0, index: 0, len: 0 }));
    let chunk = one_function(vec![Instruction::a_imm(Opcode::Call, 0, 1)]);
    assert_eq!(verify(&chunk), Err(VerifyError::FunctionOutOfRange { at: 0, index: 1, len: 1 }));
    let chunk = one_function(vec![]);
    assert_eq!(
        verify(&chunk),
        Err(VerifyError::EntryOutOfRange { function: 0, entry: 0, len: 0 })
    );
}

fn count_to(n: i64) -> Chunk {
    let mut program = Program::new("count");
    program.function("main", 0, |f| {
        let limit = f.load_int(n);
        let counter = f.load_i32(0);
        f.while_lt(counter, limit, |f| f.add_imm(counter, 1));
        f.return_(counter);
    });
    program.build()
}

#[test]
fn function_raw_keeps_declared_register_file_for_verify() -> TestResult {
    let mut program = Program::new("malformed");
    program.function_raw("main", 3, 1, |f| {
        let r0 = f.reg(0);
        f.return_(r0);
    });
    let chunk = program.build();
    assert_eq!(chunk.functions[0].arity, 3);
    assert_eq!(chunk.functions[0].num_registers, 1);
    assert!(matches!(
        verify(&chunk),
        Err(VerifyError::ArityExceedsRegisters { function: 0, arity: 3, num_registers: 1 })
    ));
    Ok(())
}

#[test]
fn count_loop_returns_n() -> TestResult {
    let chunk = count_to(100);
    let mut vm =
        Vm::new(Arc::new(chunk), NativeTable::empty(), 0, &[]).map_err(|e| e.to_text())?;
    assert!(matches!(vm.run(10_000), VmResult::Complete(Value::Int(100))));
    Ok(())
}

#[test]
fn ping_pong_shape() -> TestResult {
    let chunk = byteflow::samples::ping_pong();
    verify(&chunk).map_err(|e| e.to_text())?;
    assert!(chunk.functions.iter().any(|f| f.name == "main"));
    assert!(chunk.functions.iter().any(|f| f.name == "pong"));
    Ok(())
}

#[test]
fn equal_constants_share_a_slot() {
    let mut b = ChunkBuilder::new("t");
    assert_eq!(b.const_(Value::Int(5)), 0);
    assert_eq!(b.const_(Value::str("x")), 1);
    assert_eq!(b.const_(Value::Int(5)), 0);
    assert_eq!(b.const_(Value::str("x")), 1);
}

#[test]
fn jumps_reach_labels_behind_and_ahead() {
    let mut b = ChunkBuilder::new("t");
    b.begin_function("main", 0, 1);
    let back = b.new_label();
    let ahead = b.new_label();
    b.bind_label(back);
    b.emit_branch(0, ahead);
    b.emit_jump(back);
    b.bind_label(ahead);
    b.emit_return(0);
    assert!(b.is_complete());
    let chunk = b.finish();
    assert_eq!(chunk.code[0].imm, 1);
    assert_eq!(chunk.code[1].imm, -2);
}

#[test]
fn an_unbound_label_is_noticed() {
    let mut b = ChunkBuilder::new("t");
    b.begin_function("main", 0, 1);
    let l = b.new_label();
    b.emit_jump(l);
    assert!(!b.is_complete());
}

#[test]
fn opcode_bytes_round_trip() {
    let mut known = 0;
    for byte in 0..=255u8 {
        if let Some(op) = Opcode::from_u8(byte) {
            assert_eq!(op.as_u8(), byte);
            known += 1;
        }
    }
    assert_eq!(known, 28);
    assert_eq!(Opcode::Halt.as_u8(), 0);
    assert_eq!(Opcode::from_u8(0xFF), None);
    assert_eq!(Opcode::CallNative.name(), "CallNative");
}

#[test]
fn instruction_constructors_fill_the_rest_with_zero() {
    let i = Instruction::abc(Opcode::Add, 1, 2, 3);
    assert_eq!((i.op, i.a, i.b, i.c, i.imm), (Op::Core(Opcode::Add), 1, 2, 3, 0));
    let i = Instruction::nullary(Opcode::Nop);
    assert_eq!((i.a, i.b, i.c, i.imm), (0, 0, 0, 0));
    let i = Instruction::ext(ExtOpcode::Ask, 4, 5, 6, 7);
    assert_eq!((i.op, i.a, i.b, i.c, i.imm), (Op::Ext(ExtOpcode::Ask), 4, 5, 6, 7));
}

#[test]
fn attenuation_narrows_rights_and_natives() {
    let cell = RevocationCell::new();
    let all = CapRights::send_ask().union(CapRights::native());
    let cap = Cap::root(CapTarget::Flow(3), all, Some(NativeMask::new(0b0110)), &cell);
    let out = cap.attenuate(
        CapRights::send().union(CapRights::admin()),
        Some(&NativeMask::new(0b0011)),
    );
    assert_eq!(out.rights, CapRights::send());
    assert_eq!(out.native, Some(NativeMask::new(0b0010)));
    assert_eq!(out.target, CapTarget::Flow(3));
    assert_eq!(CapRights::from_u8(0xFF).bits(), 0x0F);
}
