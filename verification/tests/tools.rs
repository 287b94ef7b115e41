//! What surrounds the runtime.

use byteflow::bytecode::opcode::Opcode;
use byteflow::bytecode::verify::verify;
use byteflow::cli::{demo_chunk, entry_function};
use byteflow::jit::error::CompileError;
use byteflow::jit::exit::{ExitReason, JitReturn, JIT_DEOPT, JIT_RETURN};
use byteflow::jit::frame::{JitCallRecord, MAX_JIT_CALL_DEPTH, OFF_CALL_STACK, OFF_PC};
use byteflow::log::{debug, info, level_of, set_level_for_tests, Logger, DEBUG, INFO, OFF};
use byteflow::output::{NullSink, StdoutSink};
use byteflow::samples;
use byteflow::scheduler::runtime::Runtime;

#[test]
fn levels_by_their_names() {
    for s in ["", "0", "off", "false", "no"] {
        assert_eq!(level_of(s), OFF);
    }
    for s in ["debug", "trace", "2"] {
        assert_eq!(level_of(s), DEBUG);
    }
    for s in ["1", "info", "true", "yes", "whatever"] {
        assert_eq!(level_of(s), INFO);
    }
}

#[test]
fn settings_are_trimmed_and_in_any_case() {
    assert_eq!(Logger::from_setting(None).level, OFF);
    assert_eq!(Logger::from_setting(Some("  OFF\n")).level, OFF);
    assert_eq!(Logger::from_setting(Some(" Debug ")).level, DEBUG);
    assert_eq!(Logger::from_setting(Some("TRACE")).level, DEBUG);
    assert_eq!(Logger::from_setting(Some("   ")).level, OFF);
    assert_eq!(Logger::from_setting(Some("Info")).level, INFO);
    assert_eq!(Logger::from_setting(Some("\u{3000}debug\u{a0}\u{2028}")).level, DEBUG);
    assert_eq!(Logger::from_setting(Some("\u{200b}debug")).level, INFO);
}

#[test]
fn lines_are_written_from_their_level_on() {
    let mut log = Logger::from_setting(None);
    assert!(info(&log, 5, "x").is_none());
    set_level_for_tests(&mut log, 1);
    assert_eq!(info(&log, 5, "x"), Some("[5] byteflow INFO  x".to_owned()));
    assert!(debug(&log, 5, "x").is_none());
    set_level_for_tests(&mut log, 9);
    assert_eq!(log.level, DEBUG);
    assert_eq!(debug(&log, 5, "x"), Some("[5] byteflow DEBUG x".to_owned()));
}

#[test]
fn sinks_decide_what_is_written() {
    let parts = vec!["a".to_owned(), "b".to_owned()];
    assert_eq!(NullSink.write(&parts), None);
    assert_eq!(StdoutSink.write(&parts), Some("a b".to_owned()));
    assert_eq!(StdoutSink.write(&Vec::new()), Some(String::new()));
}

#[test]
fn demonstrations_by_name() {
    assert_eq!(demo_chunk("ping_pong").map(|c| c.name), Some("ping-pong".to_owned()));
    assert_eq!(demo_chunk("42").map(|c| c.name), Some("add-forty-two".to_owned()));
    assert_eq!(demo_chunk("boom").map(|c| c.name), Some("boom".to_owned()));
    assert!(demo_chunk("nothing").is_none());
}

#[test]
fn the_entry_is_main_or_the_first_function() {
    let rt = Runtime::new(samples::ping_pong()).expect("sound");
    assert_eq!(entry_function(&rt, None), Some(1));
    assert_eq!(entry_function(&rt, Some("pong")), Some(0));
    assert_eq!(entry_function(&rt, Some("nobody")), None);
    let rt = Runtime::new(samples::boom()).expect("sound");
    assert_eq!(entry_function(&rt, None), Some(0));
}

#[test]
fn every_sample_is_sound() {
    for chunk in [
        samples::add_forty_two(),
        samples::ping_pong(),
        samples::atomic_request_reply(),
        samples::selective_receive(),
        samples::ask_reply(),
        samples::ask_timeout_expires(),
        samples::ask_target_exits(),
        samples::server_loop(),
        samples::forged_sender_send(),
        samples::forged_sender_ask(),
        samples::monitor_down(),
        samples::waiting_send(),
        samples::boom(),
    ] {
        assert!(verify(&chunk).is_ok(), "{}", chunk.name);
    }
}

#[test]
fn exit_reasons_survive_compiled_code() {
    for r in [
        ExitReason::Continue { pc: 1 },
        ExitReason::Effect { pc: 2 },
        ExitReason::Return { return_reg: 255 },
        ExitReason::Budget { pc: 3 },
        ExitReason::Trap { pc: 4 },
        ExitReason::Deopt { pc: 5 },
    ] {
        assert_eq!(JitReturn::from_reason(r).into_reason(), r);
    }
    let odd = JitReturn { kind: 77, pc: 9, return_reg: 0 };
    assert_eq!(odd.into_reason(), ExitReason::Deopt { pc: 9 });
    let wide = JitReturn { kind: JIT_RETURN, pc: 0, return_reg: 257 };
    assert_eq!(wide.into_reason(), ExitReason::Return { return_reg: 1 });
    assert_eq!(JitReturn::from_reason(ExitReason::Deopt { pc: 0 }).kind, JIT_DEOPT);
}

#[test]
fn compile_errors_say_where() {
    let e = CompileError::UnsupportedOpcode { opcode: Opcode::Send, pc: 4 };
    assert_eq!(e.to_text(), "unsupported opcode Send at pc 4");
    let e = CompileError::EmptyTrace { function: 1, pc: 2 };
    assert_eq!(e.to_text(), "trace empty at function 1 pc 2");
    let e = CompileError::UndefinedRegister { reg: 3, pc: 2 };
    assert_eq!(e.to_text(), "undefined register 3 at pc 2");
    let e = CompileError::TraceTooLong { pc: 7, limit: 64 };
    assert_eq!(e.to_text(), "trace longer than 64 at pc 7");
    assert_eq!(CompileError::Backend("x".into()).to_text(), "cranelift backend: x");
    assert_eq!(CompileError::Module("y".into()).to_text(), "module error: y");
}

#[test]
fn the_frame_layout_is_fixed() {
    assert_eq!((OFF_PC, OFF_CALL_STACK), (12, 40));
    assert_eq!(MAX_JIT_CALL_DEPTH, 32);
    assert_eq!(std::mem::size_of::<JitCallRecord>(), 16);
}
