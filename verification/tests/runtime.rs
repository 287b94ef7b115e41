//! Whole runs of the scheduler, on one thread and a clock of their own.

use std::cell::RefCell;
use std::collections::VecDeque;

use byteflow::bytecode::builder::ChunkBuilder;
use byteflow::bytecode::chunk::Chunk;
use byteflow::bytecode::opcode::Opcode;
use byteflow::bytecode::program::Program;
use byteflow::bytecode::value::{Message, Value, TAG_SYS_DOWN, TAG_SYS_EXIT};
use byteflow::bytecode::verify::verify;
use byteflow::natives::{print_native, std_native_table};
use byteflow::output::{NullSink, StdoutSink};
use byteflow::samples;
use byteflow::scheduler::capability::CapId;
use byteflow::scheduler::error::{LifecycleError, SpawnError};
use byteflow::scheduler::mailbox::capacity::MailboxCapacity;
use byteflow::scheduler::mailbox::policy::{MailboxConfig, OverflowPolicy};
use byteflow::scheduler::mailbox::queue::MailboxFullReason;
use byteflow::scheduler::monitor::FlowExitReason;
use byteflow::scheduler::oneshot::{join_timeout, Slot, WaitStep};
use byteflow::scheduler::process::{Flow, FlowId, FlowOutcome, Ids, RestartPolicy};
use byteflow::scheduler::queues::{find_work, publish, publish_global, Queues, Work};
use byteflow::scheduler::runtime::{
    flow_id_from_u64, JitConfig, Runtime, RuntimeConfig, SendError, TimerTurn, DEFAULT_QUANTUM,
};
use byteflow::scheduler::supervisor::{ChildSpec, Supervisor, SupervisorConfig};
use byteflow::vm::fault::Fault;
use byteflow::vm::native::{NativeFn, NativeResult};
use byteflow::vm::result::{FloatOp, VmResult};

type TestResult = Result<(), String>;

const LINK: u64 = 1;

/// One worker and a clock that moves when nothing can run.
struct Host {
    rt: Runtime,
    queue: VecDeque<Box<Flow>>,
    now: u64,
    ended: Vec<(FlowId, FlowOutcome)>,
    lines: RefCell<Vec<String>>,
    silent: bool,
    supervisor: Option<Supervisor>,
    ids: Ids,
}

fn native(
    f: NativeFn,
    args: &[Value],
    now: u64,
    silent: bool,
    lines: &RefCell<Vec<String>>,
) -> NativeResult {
    if let Some(r) = f.call(args) {
        return r;
    }
    match f {
        NativeFn::Print => {
            let parts: Vec<String> = args.iter().map(|v| v.to_text().unwrap_or_default()).collect();
            let line = if silent { NullSink.write(&parts) } else { StdoutSink.write(&parts) };
            if let Some(line) = line {
                lines.borrow_mut().push(line);
            }
            print_native(&parts).1
        }
        NativeFn::NowMs => Ok(Value::Int(now as i64)),
        other => Err(Fault::NativeError(format!("{other:?}"))),
    }
}

fn no_float(_op: FloatOp, _lhs: &Value, _rhs: &Value) -> Value {
    Value::Unit
}

impl Host {
    fn new(rt: Runtime) -> Host {
        Host {
            rt,
            queue: VecDeque::new(),
            now: 0,
            ended: Vec::new(),
            lines: RefCell::new(Vec::new()),
            silent: false,
            supervisor: None,
            ids: Ids::new(),
        }
    }

    fn absorb(&mut self) {
        for (_, flow) in self.rt.shared.take_ready() {
            self.queue.push_back(flow);
        }
        for e in self.rt.shared.take_endings() {
            if e.supervisor == Some(LINK) {
                if let Some(sup) = &mut self.supervisor {
                    let spawner = self.rt.spawner();
                    sup.child_exited(
                        &mut self.rt.shared,
                        &mut self.ids,
                        &spawner,
                        LINK,
                        e.id,
                        &e.outcome,
                        self.now,
                    );
                }
            }
            self.ended.push((e.id, e.outcome));
        }
    }

    /// Run one flow, or let time pass; `false` when nothing is left to do.
    fn pump(&mut self) -> bool {
        self.absorb();
        if let Some(flow) = self.queue.pop_front() {
            let quantum = self.rt.shared.quantum;
            let mut current = self.rt.shared.begin_quantum(flow);
            while let Some(mut flow) = current {
                let now = self.now;
                let lines = &self.lines;
                let silent = self.silent;
                let result = flow.vm.run_hosted(
                    quantum,
                    &|f: NativeFn, args: &[Value]| native(f, args, now, silent, lines),
                    &no_float,
                );
                current = self.rt.shared.apply(&mut self.ids, now, flow, result);
            }
            self.absorb();
            return true;
        }
        let mut idle = 0;
        loop {
            match self.rt.shared.drive_timer(self.now) {
                TimerTurn::Fired => return true,
                TimerTurn::Stop => return false,
                TimerTurn::Sleep(ms) => {
                    self.now += ms;
                    idle += 1;
                    if idle > 3 {
                        return false;
                    }
                }
            }
        }
    }

    fn outcome(&self, id: FlowId) -> Option<FlowOutcome> {
        self.ended.iter().find(|e| e.0 == id).map(|e| e.1.clone())
    }

    fn join(&mut self, id: FlowId) -> FlowOutcome {
        for _ in 0..100_000 {
            if let Some(o) = self.outcome(id) {
                return o;
            }
            if !self.pump() {
                break;
            }
        }
        self.outcome(id).expect("the flow never ended")
    }

    fn settle(&mut self) {
        while self.pump() {}
    }

    fn spawn(&mut self, name: &str, args: &[Value]) -> Result<FlowId, String> {
        let index = self.rt.function_index(name).ok_or(name.to_owned())?;
        Ok(self.rt.spawn(&mut self.ids, index, args).map_err(|e| e.to_text())?.id())
    }

    fn run(&mut self, name: &str) -> Result<FlowOutcome, String> {
        let id = self.spawn(name, &[])?;
        Ok(self.join(id))
    }
}

fn config() -> RuntimeConfig {
    let mut c = RuntimeConfig::default();
    c.workers = 1;
    c.quantum = 10_000;
    c
}

fn tiny(chunk: Chunk) -> Result<Host, String> {
    Ok(Host::new(Runtime::with_config(chunk, config()).map_err(|e| e.to_text())?))
}

fn tiny_natives(chunk: Chunk) -> Result<Host, String> {
    Ok(Host::new(
        Runtime::with_natives_and_config(chunk, std_native_table(), config())
            .map_err(|e| e.to_text())?,
    ))
}

fn add_chunk() -> Chunk {
    let mut b = ChunkBuilder::new("test");
    b.begin_function("main", 0, 2);
    b.emit_load_imm(0, 41);
    b.emit_load_imm(1, 1);
    b.emit_binop(Opcode::Add, 0, 0, 1);
    b.emit_return(0);
    b.finish()
}

fn sleep_then_return_chunk(millis: i32) -> Chunk {
    let mut b = ChunkBuilder::new("test");
    b.begin_function("main", 0, 2);
    b.emit_load_imm(0, millis);
    b.emit_sleep(0);
    b.emit_load_imm(0, 7);
    b.emit_return(0);
    b.finish()
}

fn receive_forever_chunk() -> Chunk {
    let mut b = ChunkBuilder::new("recv");
    b.begin_function("main", 0, 1);
    b.emit_receive(0);
    b.emit_return(0);
    b.finish()
}

#[test]
fn polling_and_bounded_waits_never_commit_the_host_thread() -> TestResult {
    let mut host = tiny(sleep_then_return_chunk(150))?;
    let handle = host.rt.spawn(&mut host.ids, 0, &[]).map_err(|e| e.to_text())?;
    let mut slot: Slot<FlowOutcome> = Slot::new();

    if let Some(outcome) = handle.poll(slot.try_join()) {
        return Err(format!("try_join answered too early: {outcome:?}"));
    }
    assert!(host.pump());

    let deadline = join_timeout(host.now, 20).ok_or("a deadline")?;
    assert!(matches!(slot.join_deadline(host.now, deadline), WaitStep::Sleep(20)));
    host.now += 20;
    assert!(matches!(host.rt.shared.drive_timer(host.now), TimerTurn::Sleep(130)));
    match slot.join_deadline(host.now, deadline) {
        WaitStep::Done(received) => assert_eq!(handle.poll(received), None),
        other => return Err(format!("join_timeout did not expire: {other:?}")),
    }

    let deadline = join_timeout(host.now, 10_000).ok_or("a deadline")?;
    let outcome = host.join(handle.id());
    assert_eq!(host.now, 150);
    slot.send(outcome);
    match slot.join_deadline(host.now, deadline) {
        WaitStep::Done(received) => match handle.poll(received) {
            Some(FlowOutcome::Completed(Value::Int(7))) => {}
            other => return Err(format!("unexpected outcome: {other:?}")),
        },
        other => return Err(format!("unexpected wait: {other:?}")),
    }
    assert!(matches!(handle.poll(slot.try_join()), Some(FlowOutcome::Failed(_))));
    Ok(())
}

#[test]
fn spawn_and_join_add() -> TestResult {
    let mut host = tiny(add_chunk())?;
    match host.run("main")? {
        FlowOutcome::Completed(Value::Int(42)) => Ok(()),
        other => Err(format!("unexpected outcome: {other:?}")),
    }
}

#[test]
fn kill_parked_flow_joins_failed() -> TestResult {
    let mut host = tiny(receive_forever_chunk())?;
    let id = host.spawn("main", &[])?;
    host.pump();
    host.rt.kill(id).map_err(|e| e.to_text())?;
    let outcome = host.join(id);
    assert!(matches!(outcome, FlowOutcome::Failed(_)), "kill must fail the joiner, got {outcome:?}");
    assert_eq!(outcome, FlowOutcome::Failed("killed (killed)".into()));
    Ok(())
}

#[test]
fn kill_of_a_flow_that_can_run_takes_effect_at_its_next_turn() -> TestResult {
    let mut host = tiny(receive_forever_chunk())?;
    let id = host.spawn("main", &[])?;
    host.rt.kill(id).map_err(|e| e.to_text())?;
    assert_eq!(host.rt.live_flows(), 1);
    assert_eq!(host.join(id), FlowOutcome::Failed("linked exit (killed)".into()));
    assert_eq!(host.rt.live_flows(), 0);
    assert_eq!(host.rt.kill(id), Err(LifecycleError::NoSuchFlow(id)));
    Ok(())
}

#[test]
fn max_flows_rejects_extra_spawn() -> TestResult {
    let mut c = config();
    c.max_flows = 1;
    let rt = Runtime::with_config(receive_forever_chunk(), c).map_err(|e| e.to_text())?;
    let mut host = Host::new(rt);
    let first = host.spawn("main", &[])?;
    let second = host.rt.spawn(&mut host.ids, 0, &[]);
    host.rt.kill(first).map_err(|e| e.to_text())?;
    host.join(first);
    match second {
        Err(SpawnError::FlowLimit { current, max }) => {
            assert_eq!(current, 1);
            assert_eq!(max, 1);
        }
        Err(e) => return Err(format!("expected FlowLimit, got {}", e.to_text())),
        Ok(_) => return Err("expected FlowLimit, got a handle".into()),
    }
    assert!(host.rt.spawn(&mut host.ids, 0, &[]).is_ok());
    Ok(())
}

#[test]
fn runtime_with_jit_enabled_completes_add() -> TestResult {
    let mut c = config();
    c.jit = JitConfig { enabled: true, hot_threshold: 1 };
    let mut host = Host::new(Runtime::with_config(add_chunk(), c).map_err(|e| e.to_text())?);
    match host.run("main")? {
        FlowOutcome::Completed(Value::Int(42)) => Ok(()),
        other => Err(format!("unexpected outcome: {other:?}")),
    }
}

#[test]
fn chunk_builder_with_std_natives() -> TestResult {
    let mut b = ChunkBuilder::new("std-natives-demo");
    b.begin_function("main", 0, 2);
    b.emit_load_imm(0, 42);
    b.emit_call_native(0, 0, 1);
    b.emit_call_native(1, 1, 0);
    b.emit_return(1);
    let chunk = b.finish();
    verify(&chunk).map_err(|e| e.to_text())?;
    let mut host = tiny_natives(chunk)?;
    match host.run("main")? {
        FlowOutcome::Completed(Value::Int(ms)) => {
            assert!(ms >= 0);
            assert_eq!(host.lines.borrow().as_slice(), &["42".to_owned()]);
            Ok(())
        }
        other => Err(format!("expected Completed(Value::Int(_)), got {other:?}")),
    }
}

#[test]
fn now_ms_returns_non_negative_int() -> TestResult {
    let mut b = ChunkBuilder::new("now");
    b.begin_function("main", 0, 1);
    b.emit_call_native(0, 1, 0);
    b.emit_return(0);
    let mut host = tiny_natives(b.finish())?;
    let outcome = host.run("main")?;
    assert!(matches!(outcome, FlowOutcome::Completed(Value::Int(ms)) if ms >= 0));
    Ok(())
}

#[test]
fn add_forty_two_joins_42() -> TestResult {
    let mut host = tiny(samples::add_forty_two())?;
    let outcome = host.run("main")?;
    assert!(matches!(outcome, FlowOutcome::Completed(Value::Int(42))));
    Ok(())
}

#[test]
fn ping_pong_joins_2() -> TestResult {
    let chunk = samples::ping_pong();
    assert!(verify(&chunk).is_ok());
    let mut host = tiny_natives(chunk)?;
    let outcome = host.run("main")?;
    let sent = host.rt.metrics().messages_sent;
    assert!(matches!(outcome, FlowOutcome::Completed(Value::Int(2))), "got {outcome:?}");
    assert!(sent >= 2);
    Ok(())
}

#[test]
fn atomic_request_reply_joins_42() -> TestResult {
    let chunk = samples::atomic_request_reply();
    assert!(verify(&chunk).is_ok());
    let mut host = tiny_natives(chunk)?;
    let outcome = host.run("main")?;
    let sent = host.rt.metrics().messages_sent;
    assert!(matches!(outcome, FlowOutcome::Completed(Value::Int(42))), "got {outcome:?}");
    assert!(sent >= 1);
    Ok(())
}

#[test]
fn selective_receive_skips_junk_tag() -> TestResult {
    let chunk = samples::selective_receive();
    assert!(verify(&chunk).is_ok());
    let mut host = tiny_natives(chunk)?;
    let outcome = host.run("main")?;
    assert!(matches!(outcome, FlowOutcome::Completed(Value::Int(42))), "got {outcome:?}");
    host.settle();
    assert_eq!(host.rt.metrics().processes_completed, 2);
    Ok(())
}

#[test]
fn ask_reply_joins_42() -> TestResult {
    let chunk = samples::ask_reply();
    assert!(verify(&chunk).is_ok());
    let mut host = tiny_natives(chunk)?;
    let outcome = host.run("main")?;
    let sent = host.rt.metrics().messages_sent;
    assert!(matches!(outcome, FlowOutcome::Completed(Value::Int(42))), "got {outcome:?}");
    assert!(sent >= 2);
    Ok(())
}

#[test]
fn ask_timeout_writes_unit() -> TestResult {
    let chunk = samples::ask_timeout_expires();
    assert!(verify(&chunk).is_ok());
    let mut host = tiny_natives(chunk)?;
    let outcome = host.run("main")?;
    assert!(matches!(outcome, FlowOutcome::Completed(Value::Unit)), "got {outcome:?}");
    assert_eq!(host.now, 40);
    Ok(())
}

#[test]
fn ask_target_exit_writes_sys_exit() -> TestResult {
    let chunk = samples::ask_target_exits();
    assert!(verify(&chunk).is_ok());
    let mut host = tiny_natives(chunk)?;
    let outcome = host.run("main")?;
    assert!(
        matches!(
            outcome,
            FlowOutcome::Completed(Value::Int(n)) if n == i64::from(TAG_SYS_EXIT)
        ),
        "got {outcome:?}"
    );
    Ok(())
}

#[test]
fn server_loop_joins_42() -> TestResult {
    let chunk = samples::server_loop();
    assert!(verify(&chunk).is_ok());
    let mut host = tiny_natives(chunk)?;
    let outcome = host.run("main")?;
    assert!(matches!(outcome, FlowOutcome::Completed(Value::Int(42))), "got {outcome:?}");
    Ok(())
}

#[test]
fn send_overwrites_forged_sender() -> TestResult {
    let chunk = samples::forged_sender_send();
    assert!(verify(&chunk).is_ok());
    let mut host = tiny_natives(chunk)?;
    match host.run("main")? {
        FlowOutcome::Completed(Value::Pid(n)) => {
            assert_ne!(n, 999, "forged make_msg sender must not survive Send");
            assert!(n >= 1, "authenticated sender must be a live flow id");
            Ok(())
        }
        other => Err(format!("expected Completed(Pid), got {other:?}")),
    }
}

#[test]
fn ask_overwrites_forged_request_sender() -> TestResult {
    let chunk = samples::forged_sender_ask();
    assert!(verify(&chunk).is_ok());
    let mut host = tiny_natives(chunk)?;
    match host.run("main")? {
        FlowOutcome::Completed(Value::Pid(n)) => {
            assert_ne!(n, 999, "forged make_msg sender must not survive Ask");
            assert!(n >= 1, "authenticated sender must be a live flow id");
            Ok(())
        }
        other => Err(format!("expected Completed(Pid), got {other:?}")),
    }
}

#[test]
fn forged_sender_samples_return_authenticated_pid() -> TestResult {
    for chunk in [samples::forged_sender_send(), samples::forged_sender_ask()] {
        let rt = Runtime::with_std_natives_and_config(chunk, config()).map_err(|e| e.to_text())?;
        let mut host = Host::new(rt);
        let id = host.spawn("main", &[])?;
        match host.join(id) {
            FlowOutcome::Completed(Value::Pid(n)) => {
                assert_ne!(n, 999);
                assert!(n >= 1);
                assert_eq!(n, id.as_u64());
            }
            other => return Err(format!("expected Completed(Pid), got {other:?}")),
        }
    }
    Ok(())
}

#[test]
fn send_scalar_target_traps() -> TestResult {
    let mut p = Program::new("bad-cap-target");
    p.function("main", 0, |f| {
        let bad_cap = f.load_i32(99);
        let req_id = f.load_i32(1);
        let payload = f.load_i32(1);
        let msg = f.hop(req_id, samples::TAG_PING, payload);
        f.send(bad_cap, msg);
        f.return_(msg);
    });
    let mut host = tiny_natives(p.build())?;
    let outcome = host.run("main")?;
    assert!(
        matches!(outcome, FlowOutcome::Failed(_)),
        "non-Cap Send target must fail, got {outcome:?}"
    );
    Ok(())
}

#[test]
fn send_scalar_is_not_an_atomic_hop() -> TestResult {
    let mut p = Program::new("bad-hop");
    p.function("main", 0, |f| {
        let cap = f.self_cap();
        let scalar = f.load_i32(99);
        f.send(cap, scalar);
        f.return_(scalar);
    });
    let mut host = tiny(p.build())?;
    let outcome = host.run("main")?;
    assert!(
        matches!(outcome, FlowOutcome::Failed(_)),
        "scalar Send must trap, got {outcome:?}"
    );
    Ok(())
}

#[test]
fn monitor_down_joins_normal_reason() -> TestResult {
    let chunk = samples::monitor_down();
    assert!(verify(&chunk).is_ok());
    let mut host = tiny_natives(chunk)?;
    let outcome = host.run("main")?;
    assert!(
        matches!(outcome, FlowOutcome::Completed(Value::Int(0))),
        "DOWN reason should be Normal (0), got {outcome:?}"
    );
    Ok(())
}

fn one_place() -> Result<MailboxConfig, String> {
    let cap = MailboxCapacity::new(1).ok_or("cap")?;
    Ok(MailboxConfig::new(cap, OverflowPolicy::Reject))
}

fn waiting_send_host() -> Result<Host, String> {
    let mut c = config();
    c.mailbox = one_place()?;
    let rt = Runtime::with_natives_and_config(samples::waiting_send(), std_native_table(), c)
        .map_err(|e| e.to_text())?;
    Ok(Host::new(rt))
}

#[test]
fn waiting_send_second_hop_arrives() -> TestResult {
    let mut host = waiting_send_host()?;
    let server = host.spawn("server", &[])?;
    let server_cap = host.rt.mint_cap(&mut host.ids, server).map_err(|e| e.to_text())?;
    host.spawn("client", &[Value::Cap(server_cap.as_u64())])?;
    let outcome = host.join(server);
    assert!(
        matches!(outcome, FlowOutcome::Completed(Value::Int(42))),
        "second hop should be admitted after the first pop, got {outcome:?}"
    );
    Ok(())
}

#[test]
fn a_sender_that_waits_for_room_fails_with_its_target() -> TestResult {
    let mut host = waiting_send_host()?;
    let server = host.spawn("server", &[])?;
    let cap = host.rt.mint_cap(&mut host.ids, server).map_err(|e| e.to_text())?;
    let client = host.spawn("client", &[Value::Cap(cap.as_u64())])?;
    host.pump();
    host.pump();
    assert!(host.outcome(client).is_none());
    let server_text = server.to_text();
    host.rt.kill(server).map_err(|e| e.to_text())?;
    assert_eq!(
        host.join(client),
        FlowOutcome::Failed(format!("send target {server_text} exited"))
    );
    Ok(())
}

#[test]
fn a_flow_is_in_one_place_through_its_waits() -> TestResult {
    let mut c = config();
    c.mailbox = one_place()?;
    let mut ids = Ids::new();
    let mut rt = Runtime::with_config(add_chunk(), c).map_err(|e| e.to_text())?;
    let to = rt.spawn(&mut ids, 0, &[]).map_err(|e| e.to_text())?.id();
    let from = rt.spawn(&mut ids, 0, &[]).map_err(|e| e.to_text())?.id();
    let cap = rt.mint_cap(&mut ids, to).map_err(|e| e.to_text())?.as_u64();
    let mut ready = rt.shared.take_ready();
    let sender = ready.pop().ok_or("sender")?.1;
    let receiver = ready.pop().ok_or("receiver")?.1;
    assert_eq!((receiver.id, sender.id), (to, from));
    let send = |n: u64| VmResult::Send {
        target_cap: cap,
        message: Value::Message(Message::new(0, 0, 7, n)),
    };
    let receive = || VmResult::Receive { dest_reg: 0, timeout: None, match_tag: None };

    // The second message finds the mailbox full: the sender waits there only.
    let sender = rt.shared.apply(&mut ids, 0, sender, send(1)).ok_or("went on")?;
    assert!(rt.shared.apply(&mut ids, 0, sender, send(2)).is_none());
    assert_eq!(rt.shared.waiting_send_at.get(from), Some(to));
    assert!(rt.shared.ready.is_empty());

    // The first receive makes room: the sender is ready, once, and waits nowhere.
    let receiver = rt.shared.apply(&mut ids, 0, receiver, receive()).ok_or("went on")?;
    assert_eq!(rt.shared.waiting_send_at.get(from), None);
    let mut ready = rt.shared.take_ready();
    assert_eq!(ready.len(), 1);
    let sender = ready.pop().ok_or("sender")?.1;
    assert_eq!(sender.id, from);

    // With the second one taken the receiver waits for a third, which wakes it.
    let receiver = rt.shared.apply(&mut ids, 0, receiver, receive()).ok_or("went on")?;
    assert!(rt.shared.apply(&mut ids, 0, receiver, receive()).is_none());
    assert!(rt.shared.ready.is_empty());
    let sender = rt.shared.apply(&mut ids, 0, sender, send(3)).ok_or("went on")?;
    assert_eq!(sender.id, from);
    assert_eq!(rt.shared.take_ready().iter().map(|r| r.1.id).collect::<Vec<_>>(), vec![to]);

    // Nobody ended for any of it.
    assert!(rt.shared.endings.is_empty());
    assert!(rt.shared.directory.contains(to) && rt.shared.directory.contains(from));
    Ok(())
}

#[test]
fn nobody_is_left_waiting_for_a_flow_that_ended() -> TestResult {
    let mut ids = Ids::new();
    let mut rt = Runtime::with_config(add_chunk(), config()).map_err(|e| e.to_text())?;
    let server = rt.spawn(&mut ids, 0, &[]).map_err(|e| e.to_text())?.id();
    let client = rt.spawn(&mut ids, 0, &[]).map_err(|e| e.to_text())?.id();
    let cap = rt.mint_cap(&mut ids, server).map_err(|e| e.to_text())?.as_u64();
    let mut ready = rt.shared.take_ready();
    let asker = ready.pop().ok_or("asker")?.1;
    let asked = ready.pop().ok_or("asked")?.1;
    let ask = VmResult::Ask {
        dest_reg: 0,
        target_cap: cap,
        request: Value::Message(Message::request(5, 1, 2)),
        timeout: None,
    };
    assert!(rt.shared.apply(&mut ids, 0, asker, ask).is_none());
    assert!(rt.shared.ready.is_empty());
    let done = VmResult::Complete(Value::Int(0));
    assert!(rt.shared.apply(&mut ids, 0, asked, done).is_none());
    assert!(!rt.shared.directory.contains(server));
    assert_eq!(rt.shared.take_ready().iter().map(|r| r.1.id).collect::<Vec<_>>(), vec![client]);
    assert!(rt.shared.ask_waits.take_waiters_of(server).is_empty());
    assert_eq!(rt.shared.ask_waits.remove_asker(client), None);
    assert_eq!(rt.shared.endings.len(), 1);
    Ok(())
}

fn link_chunk() -> Chunk {
    let mut p = Program::new("link-down-reason");
    p.function("watcher", 0, |f| {
        let msg = f.receive_match_imm(TAG_SYS_DOWN);
        let out = f.hop_payload(msg);
        f.return_(out);
    });
    p.function("park", 0, |f| {
        let _ = f.receive();
        f.trap(9);
    });
    p.function("boom", 0, |f| f.trap(1));
    p.build()
}

#[test]
fn link_kills_peer_on_fault() -> TestResult {
    let mut host = tiny(link_chunk())?;
    let parked = host.spawn("park", &[])?;
    let killer = host.spawn("boom", &[])?;
    host.rt.link(parked, killer).map_err(|e| e.to_text())?;
    let boom_out = host.join(killer);
    let park_out = host.join(parked);
    assert!(matches!(boom_out, FlowOutcome::Failed(_)), "{boom_out:?}");
    assert!(
        matches!(park_out, FlowOutcome::Failed(_)),
        "linked peer must die on fault, got {park_out:?}"
    );
    Ok(())
}

#[test]
fn linked_exit_down_carries_link_reason() -> TestResult {
    let mut host = tiny_natives(link_chunk())?;
    let watcher = host.spawn("watcher", &[])?;
    let parked = host.spawn("park", &[])?;
    let killer = host.spawn("boom", &[])?;
    host.rt.monitor(watcher, parked).map_err(|e| e.to_text())?;
    host.rt.link(parked, killer).map_err(|e| e.to_text())?;
    let _ = host.join(killer);
    let watched = host.join(watcher);
    let _ = host.join(parked);
    assert!(
        matches!(
            watched,
            FlowOutcome::Completed(Value::Int(n)) if n == FlowExitReason::Link.as_u64() as i64
        ),
        "DOWN payload must be Link, got {watched:?}"
    );
    Ok(())
}

#[test]
fn a_chain_of_links_ends_together() -> TestResult {
    let mut host = tiny(link_chunk())?;
    let a = host.spawn("park", &[])?;
    let b = host.spawn("park", &[])?;
    let c = host.spawn("park", &[])?;
    host.settle();
    host.rt.link(a, b).map_err(|e| e.to_text())?;
    host.rt.link(b, c).map_err(|e| e.to_text())?;
    host.rt.kill(a).map_err(|e| e.to_text())?;
    host.settle();
    assert_eq!(host.join(b), FlowOutcome::Failed("linked exit (link)".into()));
    assert_eq!(host.join(c), FlowOutcome::Failed("linked exit (link)".into()));
    assert_eq!(host.rt.live_flows(), 0);
    Ok(())
}

#[test]
fn a_normal_end_spares_the_linked_flow() -> TestResult {
    let mut p = Program::new("links");
    p.function("park", 0, |f| {
        let msg = f.receive();
        f.return_(msg);
    });
    p.function("done", 0, |f| {
        let z = f.load_i32(0);
        f.return_(z);
    });
    let mut host = tiny(p.build())?;
    let parked = host.spawn("park", &[])?;
    let done = host.spawn("done", &[])?;
    let link = host.rt.link(parked, done).map_err(|e| e.to_text())?;
    host.join(done);
    host.settle();
    assert!(host.outcome(parked).is_none());
    assert_eq!(host.rt.unlink(parked, link), Err(LifecycleError::NoSuchRelation));
    Ok(())
}

#[test]
fn monitor_dead_owner_is_rejected() -> TestResult {
    let mut host = tiny(samples::add_forty_two())?;
    let dead = host.spawn("main", &[])?;
    let done = host.join(dead);
    assert!(matches!(done, FlowOutcome::Completed(_)));
    let live = host.spawn("main", &[])?;
    let err = host.rt.monitor(dead, live);
    host.join(live);
    assert!(matches!(err, Err(LifecycleError::NoSuchFlow(_))), "{err:?}");
    Ok(())
}

#[test]
fn relations_need_two_live_flows() -> TestResult {
    let mut host = tiny(receive_forever_chunk())?;
    let a = host.spawn("main", &[])?;
    let b = host.spawn("main", &[])?;
    let nobody = flow_id_from_u64(77);
    assert_eq!(host.rt.monitor(a, a), Err(LifecycleError::SelfRelation));
    assert_eq!(host.rt.link(a, a), Err(LifecycleError::SelfRelation));
    assert_eq!(host.rt.link(a, nobody), Err(LifecycleError::NoSuchFlow(nobody)));
    let m = host.rt.monitor(a, b).map_err(|e| e.to_text())?;
    assert_eq!(host.rt.demonitor(b, m), Err(LifecycleError::NoSuchRelation));
    assert_eq!(host.rt.demonitor(a, m), Ok(()));
    Ok(())
}

#[test]
fn forged_cap_cannot_be_registered() -> TestResult {
    let mut host = tiny(samples::add_forty_two())?;
    let err = host.rt.register_name("svc", CapId(99_999));
    assert_eq!(err, Err(LifecycleError::InvalidCapability));
    Ok(())
}

#[test]
fn registry_clears_on_exit() -> TestResult {
    let mut p = Program::new("reg");
    p.function("main", 0, |f| {
        let ms = f.load_i32(80);
        f.sleep(ms);
        let z = f.load_i32(1);
        f.return_(z);
    });
    let mut host = tiny(p.build())?;
    let h = host.spawn("main", &[])?;
    let cap = host.rt.mint_cap(&mut host.ids, h).map_err(|e| e.to_text())?;
    host.rt.register_name("svc", cap).map_err(|e| e.to_text())?;
    assert_eq!(host.rt.whereis("svc"), Ok(Some(cap)));
    assert_eq!(host.rt.register_name("svc", cap), Err(LifecycleError::NameTaken));
    host.join(h);
    assert_eq!(host.rt.whereis("svc"), Ok(None));
    assert_eq!(host.rt.unregister_name("svc"), Ok(false));
    Ok(())
}

#[test]
fn cap_from_runtime_a_cannot_register_in_runtime_b() -> TestResult {
    let mut a = tiny(samples::add_forty_two())?;
    let mut b = tiny(samples::add_forty_two())?;
    let h = a.spawn("main", &[])?;
    let cap = a.rt.mint_cap(&mut a.ids, h).map_err(|e| e.to_text())?;
    assert_eq!(b.rt.register_name("svc", cap), Err(LifecycleError::InvalidCapability));
    a.join(h);
    Ok(())
}

#[test]
fn runtimes_of_one_process_share_no_flow_and_no_capability() -> TestResult {
    let mut ids = Ids::new();
    let make = || Runtime::with_config(samples::add_forty_two(), config()).map_err(|e| e.to_text());
    let mut a = make()?;
    let mut b = make()?;
    let in_a = a.spawn(&mut ids, 0, &[]).map_err(|e| e.to_text())?.id();
    let in_b = b.spawn(&mut ids, 0, &[]).map_err(|e| e.to_text())?.id();
    assert_ne!(in_a, in_b);
    let cap_a = a.mint_cap(&mut ids, in_a).map_err(|e| e.to_text())?;
    let cap_b = b.mint_cap(&mut ids, in_b).map_err(|e| e.to_text())?;
    assert_ne!(cap_a, cap_b);
    assert_eq!(b.register_name("svc", cap_a), Err(LifecycleError::InvalidCapability));
    assert_eq!(a.register_name("svc", cap_b), Err(LifecycleError::InvalidCapability));
    assert_eq!(b.kill(in_a), Err(LifecycleError::NoSuchFlow(in_a)));
    assert_eq!(b.register_name("svc", cap_b), Ok(()));
    assert_eq!(b.whereis("svc"), Ok(Some(cap_b)));
    Ok(())
}

#[test]
fn cap_revoked_after_holder_flow_exits() -> TestResult {
    let mut p = Program::new("cap-revoke");
    p.function("main", 0, |f| {
        let z = f.load_i32(0);
        f.return_(z);
    });
    let mut host = tiny(p.build())?;
    let h = host.spawn("main", &[])?;
    let cap = host.rt.mint_cap(&mut host.ids, h).map_err(|e| e.to_text())?;
    host.join(h);
    assert_eq!(
        host.rt.register_name("svc", cap),
        Err(LifecycleError::InvalidCapability)
    );
    Ok(())
}

#[test]
fn runtime_config_output_wires_print_native() -> TestResult {
    let mut p = Program::new("print-sink");
    p.function("main", 0, |f| {
        let n = f.load_i32(7);
        f.native1_on(n, 0);
        let z = f.load_i32(0);
        f.return_(z);
    });
    let rt = Runtime::with_std_natives_and_config(p.build(), config()).map_err(|e| e.to_text())?;
    let mut host = Host::new(rt);
    host.run("main")?;
    assert_eq!(host.lines.borrow().as_slice(), &["7".to_owned()]);
    Ok(())
}

#[test]
fn null_sink_is_default_and_silent() -> TestResult {
    let mut p = Program::new("silent");
    p.function("main", 0, |f| {
        let n = f.load_i32(1);
        f.native1_on(n, 0);
        let z = f.load_i32(0);
        f.return_(z);
    });
    let rt = Runtime::with_std_natives_and_config(p.build(), config()).map_err(|e| e.to_text())?;
    let mut host = Host::new(rt);
    host.silent = true;
    host.run("main")?;
    assert!(host.lines.borrow().is_empty());
    Ok(())
}

#[test]
fn confined_child_cannot_call_natives() -> TestResult {
    let mut p = Program::new("confined-native");
    let child = p.function("child", 0, |f| {
        let n = f.load_i32(1);
        f.native1_on(n, 0);
        f.return_(n);
    });
    p.function("main", 0, |f| {
        let _cap = f.spawn_confined(child, 0);
        let z = f.load_i32(0);
        f.return_(z);
    });
    let rt = Runtime::with_std_natives_and_config(p.build(), config()).map_err(|e| e.to_text())?;
    let mut host = Host::new(rt);
    match host.run("main")? {
        FlowOutcome::Completed(Value::Int(0)) => {}
        other => return Err(format!("parent should complete, got {other:?}")),
    }
    host.settle();
    assert!(host.lines.borrow().is_empty());
    assert_eq!(host.rt.metrics().processes_failed, 1);
    Ok(())
}

#[test]
fn admin_kill_requires_scheduler_cap() -> TestResult {
    let mut p = Program::new("admin-kill-victim");
    p.function("main", 0, |f| {
        let ms = f.load_i32(200);
        f.sleep(ms);
        let z = f.load_i32(42);
        f.return_(z);
    });
    let mut host = tiny(p.build())?;
    let victim = host.spawn("main", &[])?;
    let holder = host.spawn("main", &[])?;
    let ordinary = host.rt.mint_cap(&mut host.ids, holder).map_err(|e| e.to_text())?;
    assert_eq!(
        host.rt.admin_kill(holder, ordinary, victim),
        Err(LifecycleError::InvalidCapability)
    );
    let admin = host.rt.mint_admin_cap(&mut host.ids, holder).map_err(|e| e.to_text())?;
    host.rt.admin_kill(holder, admin, victim).map_err(|e| e.to_text())?;
    let outcome = host.join(victim);
    host.join(holder);
    match outcome {
        FlowOutcome::Failed(_) => Ok(()),
        other => Err(format!("admin_kill must fail the victim, got {other:?}")),
    }
}

#[test]
fn the_host_sends_messages_and_nothing_else() -> TestResult {
    let mut c = config();
    c.mailbox = one_place()?;
    let rt = Runtime::with_config(receive_forever_chunk(), c).map_err(|e| e.to_text())?;
    let mut host = Host::new(rt);
    let id = host.spawn("main", &[])?;
    assert_eq!(
        host.rt.send(id, Value::Int(1)),
        Err(SendError::NotAHop { got: "int" })
    );
    let nobody = FlowId(99);
    let m = Value::Message(Message::new(5, 6, 7, 8));
    assert_eq!(host.rt.send(nobody, m.clone()), Err(SendError::NoSuchFlow(nobody)));
    assert_eq!(host.rt.send(id, m.clone()), Ok(()));
    assert_eq!(
        host.rt.send(id, m.clone()),
        Err(SendError::MailboxFull { flow: id, reason: MailboxFullReason::Messages })
    );
    assert_eq!(host.join(id), FlowOutcome::Completed(m));
    Ok(())
}

#[test]
fn a_message_of_the_host_wakes_a_waiting_flow() -> TestResult {
    let mut host = tiny(receive_forever_chunk())?;
    let id = host.spawn("main", &[])?;
    host.pump();
    let m = Value::Message(Message::new(5, 6, 7, 8));
    assert_eq!(host.rt.send(id, m.clone()), Ok(()));
    assert_eq!(host.join(id), FlowOutcome::Completed(m));
    Ok(())
}

#[test]
fn a_receive_with_a_limit_gives_up() -> TestResult {
    let mut p = Program::new("limit");
    p.function("main", 0, |f| {
        let ms = f.load_i32(30);
        let got = f.receive_timeout(ms);
        f.return_(got);
    });
    let mut host = tiny(p.build())?;
    assert_eq!(host.run("main")?, FlowOutcome::Completed(Value::Unit));
    assert_eq!(host.now, 30);
    Ok(())
}

#[test]
fn a_yielding_flow_lets_others_run() -> TestResult {
    let mut c = config();
    c.quantum = 1;
    let rt = Runtime::with_config(add_chunk(), c).map_err(|e| e.to_text())?;
    let mut host = Host::new(rt);
    let a = host.spawn("main", &[])?;
    let b = host.spawn("main", &[])?;
    assert_eq!(host.join(a), FlowOutcome::Completed(Value::Int(42)));
    assert_eq!(host.join(b), FlowOutcome::Completed(Value::Int(42)));
    assert_eq!(host.rt.metrics().reschedules, 6);
    Ok(())
}

#[test]
fn a_bad_module_or_function_is_refused() {
    match Runtime::new(Chunk::default()) {
        Err(SpawnError::VerifyFailed(_)) => {}
        other => panic!("{other:?}"),
    }
    let mut rt = Runtime::new(add_chunk()).expect("sound");
    assert!(rt.worker_count() >= 1);
    assert!(matches!(
        rt.spawn(&mut Ids::new(), 7, &[]),
        Err(SpawnError::BadFunction { index: 7, table_size: 1 })
    ));
    assert!(matches!(rt.reload_chunk(Chunk::default()), Err(SpawnError::VerifyFailed(_))));
    assert_eq!(rt.function_index("main"), Some(0));
    assert!(rt.reload_chunk(samples::boom()).is_ok());
    assert_eq!(rt.function_index("main"), None);
    assert_eq!(rt.function_index("boom"), Some(0));
    assert_eq!(rt.shared.quantum, DEFAULT_QUANTUM);
}

#[test]
fn settings_follow_the_machine() {
    let c = RuntimeConfig::default();
    assert!(c.workers >= 1);
    assert_eq!(c.workers, num_cpus::get());
    assert_eq!(RuntimeConfig::for_cpus(0).workers, 1);
    assert_eq!(RuntimeConfig::for_cpus(6).workers, 6);
}

fn trap_chunk() -> Chunk {
    let mut b = ChunkBuilder::new("trap");
    b.begin_function("boom", 0, 1);
    b.emit_trap(1);
    b.finish()
}

fn ok_chunk() -> Chunk {
    let mut b = ChunkBuilder::new("ok");
    b.begin_function("main", 0, 1);
    b.emit_load_imm(0, 7);
    b.emit_return(0);
    b.finish()
}

fn supervised(
    chunk: Chunk,
    config: SupervisorConfig,
    spec: ChildSpec,
) -> Result<(Host, FlowId), String> {
    let mut host = tiny(chunk)?;
    let spawner = host.rt.spawner();
    let mut sup = Supervisor::with_config(config);
    let first = sup
        .start_child(&mut host.rt.shared, &mut host.ids, &spawner, LINK, spec)
        .map_err(|e| e.to_text())?
        .id();
    host.supervisor = Some(sup);
    host.settle();
    Ok((host, first))
}

#[test]
fn on_failure_does_not_restart_a_clean_exit() -> TestResult {
    let spec = ChildSpec::new("main", 0).restart(RestartPolicy::OnFailure);
    let (mut host, first) = supervised(ok_chunk(), SupervisorConfig::default(), spec)?;
    assert_eq!(host.supervisor.as_ref().map(|s| s.live_children()), Some(0));
    assert!(matches!(host.join(first), FlowOutcome::Completed(_)));
    assert_eq!(host.rt.metrics().processes_spawned, 1);
    Ok(())
}

#[test]
fn on_failure_restarts_until_intensity() -> TestResult {
    let config = SupervisorConfig { max_restarts: 2, max_period: 5_000 };
    let spec = ChildSpec::new("boom", 0).restart(RestartPolicy::OnFailure);
    let (host, _) = supervised(trap_chunk(), config, spec)?;
    assert_eq!(host.supervisor.as_ref().map(|s| s.intensity_exceeded()), Some(true));
    assert_eq!(host.rt.metrics().processes_spawned, 3);
    assert_eq!(host.rt.metrics().processes_failed, 3);
    Ok(())
}

#[test]
fn always_restarts_a_clean_exit_until_intensity() -> TestResult {
    let config = SupervisorConfig { max_restarts: 2, max_period: 5_000 };
    let spec = ChildSpec::new("main", 0).restart(RestartPolicy::Always);
    let (host, _) = supervised(ok_chunk(), config, spec)?;
    assert_eq!(host.supervisor.as_ref().map(|s| s.intensity_exceeded()), Some(true));
    assert_eq!(host.rt.metrics().processes_completed, 3);
    assert_eq!(host.rt.metrics().processes_spawned, 3);
    Ok(())
}

#[test]
fn a_crash_loop_is_stopped_from_the_first_moment_on() -> TestResult {
    let mut p = Program::new("slow-boom");
    p.function("main", 0, |f| {
        let ms = f.load_i32(7);
        f.sleep(ms);
        f.trap(1);
    });
    let config = SupervisorConfig { max_restarts: 2, max_period: 5_000 };
    let spec = ChildSpec::new("main", 0).restart(RestartPolicy::OnFailure);
    let (host, _) = supervised(p.build(), config, spec)?;
    assert!(host.now > 0 && host.now < 5_000);
    assert_eq!(host.supervisor.as_ref().map(|s| s.intensity_exceeded()), Some(true));
    assert_eq!(host.rt.metrics().processes_spawned, 3);
    Ok(())
}

#[test]
fn a_supervisor_that_was_shut_down_restarts_nothing() -> TestResult {
    let mut host = tiny(trap_chunk())?;
    let spawner = host.rt.spawner();
    let mut sup = Supervisor::new();
    sup.start_child(
        &mut host.rt.shared,
        &mut host.ids,
        &spawner,
        LINK,
        ChildSpec::new("boom", 0),
    )
    .map_err(|e| e.to_text())?;
    sup.shutdown();
    host.supervisor = Some(sup);
    host.settle();
    assert_eq!(host.rt.metrics().processes_spawned, 1);
    assert_eq!(host.supervisor.as_ref().map(|s| s.intensity_exceeded()), Some(false));
    Ok(())
}

/// A search by one of the workers.
fn look(q: &Queues, worker: usize) -> Work {
    let mut others: Vec<_> = q.stealers.iter().collect();
    find_work(&mut &q.locals[worker], &mut &q.injector, &mut others)
}

#[test]
fn run_queues_hand_out_what_was_published() -> TestResult {
    let mut host = tiny(add_chunk())?;
    let a = host.spawn("main", &[])?;
    let b = host.spawn("main", &[])?;
    let q = Queues::new(2);
    assert_eq!(publish(host.rt.shared.take_ready(), &mut &q.locals[0], &mut &q.injector), 2);
    let mut found = Vec::new();
    loop {
        let work = look(&q, 1);
        assert!(!matches!(work, Work::Local(_)));
        match work.claim(&mut host.rt.shared.metrics) {
            Some(f) => found.push(f.id),
            None => break,
        }
    }
    found.sort();
    assert_eq!(found, vec![a, b]);
    assert_eq!(host.rt.metrics().steals, 0);
    Ok(())
}

#[test]
fn a_worker_without_work_steals() -> TestResult {
    let mut c = config();
    c.quantum = 1;
    let mut ids = Ids::new();
    let mut rt = Runtime::with_config(add_chunk(), c).map_err(|e| e.to_text())?;
    let id = rt.spawn(&mut ids, 0, &[]).map_err(|e| e.to_text())?.id();
    let q = Queues::new(2);
    assert_eq!(publish_global(rt.shared.take_ready(), &mut &q.injector), 1);
    let mut flow = match look(&q, 0) {
        Work::Shared(f) => f,
        other => return Err(format!("{other:?}")),
    };
    let result = flow.vm.run(1);
    assert!(rt.shared.apply(&mut ids, 0, flow, result).is_none());
    assert_eq!(publish(rt.shared.take_ready(), &mut &q.locals[0], &mut &q.injector), 1);
    let work = look(&q, 1);
    assert!(matches!(work, Work::Stolen(_)));
    assert_eq!(work.claim(&mut rt.shared.metrics).map(|f| f.id), Some(id));
    assert_eq!(rt.metrics().steals, 1);
    Ok(())
}

#[test]
fn a_worker_looks_into_its_own_queue_first() -> TestResult {
    let mut c = config();
    c.quantum = 1;
    let mut ids = Ids::new();
    let mut rt = Runtime::with_config(add_chunk(), c).map_err(|e| e.to_text())?;
    let first = rt.spawn(&mut ids, 0, &[]).map_err(|e| e.to_text())?.id();
    let q = Queues::new(2);
    assert_eq!(publish_global(rt.shared.take_ready(), &mut &q.injector), 1);
    let mut flow = match look(&q, 0) {
        Work::Shared(f) => f,
        other => return Err(format!("{other:?}")),
    };
    let result = flow.vm.run(1);
    assert!(rt.shared.apply(&mut ids, 0, flow, result).is_none());
    let second = rt.spawn(&mut ids, 0, &[]).map_err(|e| e.to_text())?.id();
    assert_eq!(publish(rt.shared.take_ready(), &mut &q.locals[0], &mut &q.injector), 2);
    assert!(matches!(look(&q, 0), Work::Local(f) if f.id == first));
    assert!(matches!(look(&q, 0), Work::Shared(f) if f.id == second));
    assert!(matches!(look(&q, 0), Work::Nothing));
    Ok(())
}

#[test]
fn a_flow_asks_monitors_and_links_through_capabilities() -> TestResult {
    let mut p = Program::new("relations");
    let child = p.function("child", 0, |f| {
        let _ = f.receive();
        f.trap(4);
    });
    p.function("main", 0, |f| {
        let cap = f.spawn(child, 0);
        let link = f.link(cap);
        let id = f.load_i32(1);
        let zero = f.load_i32(0);
        let hop = f.hop(id, samples::TAG_REQ, zero);
        f.send(cap, hop);
        let _ = f.receive();
        f.return_(link);
    });
    let mut host = tiny_natives(p.build())?;
    assert_eq!(host.run("main")?, FlowOutcome::Failed("linked exit (link)".into()));
    Ok(())
}

#[test]
fn a_flow_cannot_relate_to_itself() -> TestResult {
    let mut p = Program::new("self");
    p.function("monitor", 0, |f| {
        let cap = f.self_cap();
        let m = f.monitor(cap);
        f.return_(m);
    });
    p.function("link", 0, |f| {
        let cap = f.self_cap();
        let m = f.link(cap);
        f.return_(m);
    });
    let mut host = tiny(p.build())?;
    assert_eq!(host.run("monitor")?, FlowOutcome::Failed("cannot monitor self".into()));
    assert_eq!(host.run("link")?, FlowOutcome::Failed("cannot link self".into()));
    Ok(())
}

#[test]
fn a_guessed_capability_reaches_nobody() -> TestResult {
    let mut b = ChunkBuilder::new("guess");
    b.begin_function("main", 2, 2);
    b.emit_send(0, 1);
    b.emit_return(0);
    let mut host = tiny(b.finish())?;
    let m = Value::Message(Message::new(0, 0, 0, 0));
    let id = host.spawn("main", &[Value::Cap(12_345), m])?;
    assert_eq!(
        host.join(id),
        FlowOutcome::Failed("unknown or revoked capability cap#12345".into())
    );
    Ok(())
}
