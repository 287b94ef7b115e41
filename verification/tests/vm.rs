//! The interpreter and the native functions.

use std::sync::Arc;

use byteflow::bytecode::builder::ChunkBuilder;
use byteflow::bytecode::chunk::Chunk;
use byteflow::bytecode::opcode::Opcode;
use byteflow::bytecode::value::{Message, Value};
use byteflow::natives::{print_line, print_native, std_native_map, std_native_table, std_natives};
use byteflow::vm::fault::Fault;
use byteflow::vm::machine::{Vm, MAX_CALL_DEPTH};
use byteflow::vm::native::{
    check_native_gate, expect_bool, expect_int, expect_message, expect_u64, NativeFn, NativeGate,
    NativeResult, NativeTable,
};
use byteflow::vm::result::{FloatOp, VmResult};

type TestResult = Result<(), String>;

fn fresh(chunk: Chunk, function: u32, args: &[Value]) -> Result<Vm, String> {
    Vm::new(Arc::new(chunk), NativeTable::empty(), function, args).map_err(|e| e.to_text())
}

#[test]
fn spawn_from_the_last_register_traps_instead_of_wrapping() -> TestResult {
    let mut b = ChunkBuilder::new("t");
    b.begin_function("main", 0, 2);
    b.emit_spawn(255, 0, 1);
    b.emit_return(0);
    let mut vm = fresh(b.finish(), 0, &[])?;
    match vm.run(10) {
        VmResult::Trap(Fault::RegisterIndexOverflow { base: 255, offset: 1 }) => Ok(()),
        other => Err(format!("expected RegisterIndexOverflow, got {other:?}")),
    }
}

#[test]
fn entering_a_function_with_too_few_registers_faults() -> TestResult {
    let mut b = ChunkBuilder::new("t");
    b.begin_function("main", 3, 1);
    b.emit_return(0);
    let args = [Value::Int(1), Value::Int(2), Value::Int(3)];
    match Vm::new(Arc::new(b.finish()), NativeTable::empty(), 0, &args) {
        Err(Fault::RegisterOutOfRange { reg: 1, frame_size: 1 }) => Ok(()),
        Err(e) => Err(format!("unexpected fault: {}", e.to_text())),
        Ok(_) => Err("three arguments cannot be loaded into one register".into()),
    }
}

#[test]
fn calling_a_function_with_too_few_registers_traps() -> TestResult {
    let mut b = ChunkBuilder::new("t");
    let callee = b.begin_function("callee", 3, 1);
    b.emit_return(0);
    let main = b.begin_function("main", 0, 4);
    b.emit_load_imm(0, 7);
    b.emit_load_imm(1, 8);
    b.emit_load_imm(2, 9);
    b.emit_call(0, callee, 3);
    b.emit_return(0);
    let mut vm = fresh(b.finish(), main, &[])?;
    match vm.run(50) {
        VmResult::Trap(Fault::RegisterOutOfRange { reg: 1, frame_size: 1 }) => Ok(()),
        other => Err(format!("expected RegisterOutOfRange, got {other:?}")),
    }
}

#[test]
fn gathering_up_to_the_last_register_still_works() -> TestResult {
    let mut b = ChunkBuilder::new("t");
    let callee = b.begin_function("callee", 1, 1);
    b.emit_return(0);
    let main = b.begin_function("main", 0, 255);
    b.emit_load_imm(254, 5);
    b.emit_call(254, callee, 1);
    b.emit_return(254);
    let mut vm = fresh(b.finish(), main, &[])?;
    match vm.run(100) {
        VmResult::Complete(_) => Ok(()),
        other => Err(format!("expected completion, got {other:?}")),
    }
}

fn binop(op: Opcode, lhs: Value, rhs: Value) -> VmResult {
    let mut b = ChunkBuilder::new("t");
    b.begin_function("main", 2, 2);
    b.emit_binop(op, 0, 0, 1);
    b.emit_return(0);
    match Vm::new(Arc::new(b.finish()), NativeTable::empty(), 0, &[lhs, rhs]) {
        Ok(mut vm) => vm.run(10),
        Err(f) => VmResult::Trap(f),
    }
}

#[test]
fn integer_arithmetic_wraps_and_division_is_checked() {
    let max = Value::Int(i64::MAX);
    assert!(matches!(
        binop(Opcode::Add, max, Value::Int(1)),
        VmResult::Complete(Value::Int(i64::MIN))
    ));
    assert!(matches!(
        binop(Opcode::Div, Value::Int(-7), Value::Int(2)),
        VmResult::Complete(Value::Int(-3))
    ));
    assert!(matches!(
        binop(Opcode::Mod, Value::Int(-7), Value::Int(2)),
        VmResult::Complete(Value::Int(-1))
    ));
    assert!(matches!(
        binop(Opcode::Div, Value::Int(1), Value::Int(0)),
        VmResult::Trap(Fault::DivideByZero)
    ));
    assert!(matches!(
        binop(Opcode::Mod, Value::Int(1), Value::Int(0)),
        VmResult::Trap(Fault::DivideByZero)
    ));
    assert!(matches!(
        binop(Opcode::Lt, Value::Int(1), Value::Int(2)),
        VmResult::Complete(Value::Bool(true))
    ));
    assert!(matches!(
        binop(Opcode::Add, Value::Unit, Value::Int(2)),
        VmResult::Trap(Fault::TypeMismatch { .. })
    ));
}

fn float(op: FloatOp, lhs: &Value, rhs: &Value) -> Value {
    let num = |v: &Value| match v {
        Value::Int(i) => *i as f64,
        Value::Float(bits) => f64::from_bits(*bits),
        _ => f64::NAN,
    };
    let (x, y) = (num(lhs), num(rhs));
    match op {
        FloatOp::Add => Value::Float((x + y).to_bits()),
        FloatOp::Sub => Value::Float((x - y).to_bits()),
        FloatOp::Mul => Value::Float((x * y).to_bits()),
        FloatOp::Div => Value::Float((x / y).to_bits()),
        FloatOp::Lt => Value::Bool(x < y),
        FloatOp::Le => Value::Bool(x <= y),
    }
}

fn no_native(_f: NativeFn, _args: &[Value]) -> NativeResult {
    Ok(Value::Unit)
}

#[test]
fn the_host_answers_floating_point_operations() -> TestResult {
    let mut b = ChunkBuilder::new("t");
    b.begin_function("main", 2, 2);
    b.emit_binop(Opcode::Mul, 0, 0, 1);
    b.emit_return(0);
    let args = [Value::Float(1.5f64.to_bits()), Value::Int(4)];
    let mut vm = fresh(b.finish(), 0, &args)?;
    match vm.run_hosted(100, &no_native, &float) {
        VmResult::Complete(v) => assert_eq!(v, Value::Float(6f64.to_bits())),
        other => return Err(format!("{other:?}")),
    }
    Ok(())
}

#[test]
fn a_run_stops_at_its_budget_and_goes_on() -> TestResult {
    let mut b = ChunkBuilder::new("t");
    b.begin_function("main", 0, 1);
    b.emit_load_imm(0, 1);
    b.emit_load_imm(0, 2);
    b.emit_return(0);
    let mut vm = fresh(b.finish(), 0, &[])?;
    assert!(matches!(vm.run(1), VmResult::Yield));
    assert_eq!(vm.instructions_executed(), 1);
    assert_eq!(vm.current_pc(), Some(1));
    assert!(matches!(vm.run(10), VmResult::Complete(Value::Int(2))));
    assert_eq!(vm.instructions_executed(), 3);
    Ok(())
}

#[test]
fn endless_recursion_is_a_fault() -> TestResult {
    let mut b = ChunkBuilder::new("t");
    let f = b.begin_function("f", 0, 1);
    b.emit_call(0, f, 0);
    b.emit_return(0);
    let mut vm = fresh(b.finish(), f, &[])?;
    match vm.run(1_000_000) {
        VmResult::Trap(Fault::CallStackOverflow { .. }) => {
            assert_eq!(vm.instructions_executed(), MAX_CALL_DEPTH as u64);
            Ok(())
        }
        other => Err(format!("{other:?}")),
    }
}

#[test]
fn explicit_traps_and_scheduler_requests() -> TestResult {
    let mut b = ChunkBuilder::new("t");
    b.begin_function("main", 0, 2);
    b.emit_trap(7);
    let mut vm = fresh(b.finish(), 0, &[])?;
    assert!(matches!(vm.run(5), VmResult::Trap(Fault::Explicit(7))));

    let mut b = ChunkBuilder::new("t");
    b.begin_function("main", 0, 2);
    b.emit_load_imm(0, 40);
    b.emit_sleep(0);
    b.emit_receive_timeout(1, 0);
    b.emit_return(1);
    let mut vm = fresh(b.finish(), 0, &[])?;
    assert!(matches!(vm.run(5), VmResult::Sleep(40)));
    assert!(matches!(
        vm.run(5),
        VmResult::Receive { dest_reg: 1, timeout: Some(40), match_tag: None }
    ));
    vm.resume_with(1, Value::Unit).map_err(|e| e.to_text())?;
    assert!(matches!(vm.run(5), VmResult::Complete(Value::Unit)));
    Ok(())
}

#[test]
fn only_messages_go_through_capabilities() -> TestResult {
    for (target, message) in [
        (Value::Int(1), Value::Message(Message::new(0, 0, 0, 0))),
        (Value::Pid(1), Value::Message(Message::new(0, 0, 0, 0))),
        (Value::Cap(1), Value::Int(1)),
    ] {
        let mut b = ChunkBuilder::new("t");
        b.begin_function("main", 2, 2);
        b.emit_send(0, 1);
        b.emit_return(0);
        let mut vm = fresh(b.finish(), 0, &[target, message])?;
        assert!(matches!(vm.run(5), VmResult::Trap(Fault::TypeMismatch { .. })));
    }
    Ok(())
}

#[test]
fn a_denied_native_is_a_fault() -> TestResult {
    let mut b = ChunkBuilder::new("t");
    b.begin_function("main", 0, 1);
    b.emit_call_native(0, 0, 0);
    b.emit_return(0);
    let mut vm = Vm::new(Arc::new(b.finish()), std_native_table(), 0, &[])
        .map_err(|e| e.to_text())?;
    assert!(matches!(vm.run(5), VmResult::Trap(Fault::NativeDenied(_))));
    Ok(())
}

#[test]
fn the_gate_lets_through_what_its_mask_says() {
    let table = std_native_table();
    let gate = NativeGate::from_mask(table.len(), byteflow::NativeMask::new(0b100));
    assert!(check_native_gate(&gate, &table, 2).is_ok());
    assert!(check_native_gate(&gate, &table, 0).is_err());
    assert!(check_native_gate(&gate, &table, 99).is_err());
    assert!(NativeGate::allow_all(3).allows(2));
    assert!(!NativeGate::allow_all(3).allows(3));
    assert!(!NativeGate::deny(3).allows(0));
}

#[test]
fn register_at_leaves_holes_as_none() {
    let table = NativeTable::builder().register_at(10, "answer", NativeFn::Host(0)).build();
    let host = |f: NativeFn| match f {
        NativeFn::Host(0) => Ok(Value::Int(42)),
        other => Err(Fault::NativeError(format!("{other:?}"))),
    };
    assert_eq!(table.len(), 11);
    assert_eq!(table.index_of("answer"), Some(10));
    assert!(host(table.get(10).unwrap()).unwrap() == Value::Int(42));
    assert!(table.get(2).is_none());
}

#[test]
fn a_taken_slot_or_name_cannot_be_registered() {
    let b = NativeTable::builder().register_at(3, "a", NativeFn::Host(0));
    assert!(!b.can_register_at(3, "b"));
    assert!(!b.can_register_at(4, "a"));
    assert!(b.can_register_at(4, "b"));
}

#[test]
fn std_native_map_has_stable_indices() {
    let map = std_native_map();
    assert_eq!(map.get("print"), Some(&0));
    assert_eq!(map.get("now_ms"), Some(&1));
    assert_eq!(map.get("make_msg"), Some(&2));
    assert_eq!(map.get("msg_payload"), Some(&6));
    assert_eq!(map.get("msg_reply_cap"), Some(&7));
}

#[test]
fn std_native_indices_are_stable() {
    let map = std_native_map();
    assert_eq!(map.get("print"), Some(&0));
    assert_eq!(map.get("now_ms"), Some(&1));
    assert_eq!(map.get("make_msg"), Some(&2));
    assert_eq!(map.get("msg_sender"), Some(&3));
    assert_eq!(map.get("msg_request_id"), Some(&4));
    assert_eq!(map.get("msg_tag"), Some(&5));
    assert_eq!(map.get("msg_payload"), Some(&6));
    assert_eq!(map.get("msg_reply_cap"), Some(&7));
}

#[test]
fn std_native_table_matches_map() {
    let (table, map) = std_natives();
    assert_eq!(table.len(), 8);
    for name in table.names() {
        assert_eq!(table.index_of(name.as_str()), map.get(name.as_str()).copied());
    }
}

fn call(table: &NativeTable, index: u32, args: &[Value]) -> Value {
    table.get(index).expect("slot").call(args).expect("not for the host").expect("no fault")
}

#[test]
fn make_msg_and_unpack_round_trip() {
    let table = std_native_table();
    let msg = call(
        &table,
        2,
        &[Value::Pid(9), Value::Int(3), Value::Int(7), Value::Int(42)],
    );
    assert_eq!(msg.as_message(), Some(Message::new(9, 3, 7, 42)));
    assert_eq!(call(&table, 3, std::slice::from_ref(&msg)), Value::Pid(9));
    assert_eq!(call(&table, 4, std::slice::from_ref(&msg)), Value::Int(3));
    assert_eq!(call(&table, 5, std::slice::from_ref(&msg)), Value::Int(7));
    assert_eq!(call(&table, 6, std::slice::from_ref(&msg)), Value::Int(42));
    assert_eq!(call(&table, 7, std::slice::from_ref(&msg)), Value::Cap(0));
}

#[test]
fn make_msg_refuses_wide_tags_and_negative_numbers() {
    let make = NativeFn::MakeMsg;
    let args = [Value::Int(0), Value::Int(0), Value::Int(65_536), Value::Int(0)];
    match make.call(&args) {
        Some(Err(Fault::NativeError(s))) => {
            assert_eq!(s, "make_msg: tag 65536 does not fit in u16")
        }
        other => panic!("{other:?}"),
    }
    let args = [Value::Int(-1), Value::Int(0), Value::Int(0), Value::Int(0)];
    assert!(matches!(make.call(&args), Some(Err(Fault::NativeError(_)))));
}

#[test]
fn print_and_the_clock_are_left_to_the_host() {
    assert!(NativeFn::Print.call(&[]).is_none());
    assert!(NativeFn::NowMs.call(&[]).is_none());
}

#[test]
fn print_accepts_all_current_values() {
    let values = [
        Value::Unit,
        Value::Bool(true),
        Value::Int(42),
        Value::Float(1.5f64.to_bits()),
        Value::Pid(7),
        Value::Message(Message::new(1, 2, 3, 4)),
        Value::Cap(9),
        Value::str("hello"),
        Value::bytes(&[1u8, 2, 3]),
    ];
    let mut parts: Vec<String> = Vec::new();
    for v in &values {
        parts.push(match (v, v.to_text()) {
            (_, Some(s)) => s,
            (Value::Float(bits), None) => format!("{}", f64::from_bits(*bits)),
            (other, None) => panic!("{other:?}"),
        });
    }
    assert!(matches!(std_native_table().get(0), Some(NativeFn::Print)));
    let (line, result) = print_native(&parts);
    assert_eq!(result, Ok(Value::Unit));
    assert_eq!(line, print_line(&parts));
    assert!(line.starts_with("() true 42 1.5 "));
    assert!(line.contains("hello"));
}

#[test]
fn print_with_no_args_still_returns_unit() {
    assert!(matches!(std_native_table().get(0), Some(NativeFn::Print)));
    assert_eq!(print_native(&Vec::new()), (String::new(), Ok(Value::Unit)));
}

#[test]
fn argument_helpers_name_what_is_wrong() {
    let args = [Value::Int(-3), Value::Bool(true)];
    assert_eq!(expect_int(&args, 0, "f"), Ok(-3));
    assert_eq!(expect_bool(&args, 1, "f"), Ok(true));
    assert_eq!(expect_u64(&args, 1, "f"), Ok(1));
    assert!(expect_u64(&args, 0, "f").is_err());
    assert!(expect_message(&args, 0, "f").is_err());
    match expect_int(&args, 2, "f") {
        Err(Fault::NativeError(s)) => assert!(s.starts_with("f: ")),
        other => panic!("{other:?}"),
    }
}
