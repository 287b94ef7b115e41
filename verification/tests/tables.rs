//! The tables of the scheduler, one by one.

use byteflow::bytecode::cap::{Cap, CapRights, CapTarget, RevocationCell};
use byteflow::bytecode::value::Value;
use byteflow::scheduler::capability::{CapId, CapTable};
use byteflow::scheduler::delegate::{exec_delegate, DelegateError};
use byteflow::scheduler::error::{
    fault_count, report_fault, FaultLog, LifecycleError, RuntimeError, SpawnError,
};
use byteflow::scheduler::handle::FlowHandle;
use byteflow::scheduler::link::LinkStore;
use byteflow::scheduler::monitor::{FlowExitReason, MonitorStore};
use byteflow::scheduler::oneshot::{join_timeout, JoinState, Slot, WaitStep};
use byteflow::scheduler::process::{next_flow_id, next_process_id, FlowId, FlowOutcome, IdSource};
use byteflow::scheduler::process::{ProcessOutcome, RestartPolicy};
use byteflow::scheduler::queues::{
    find_work, publish, search_step, Attempt, Place, Queues, Search, Work,
};
use byteflow::scheduler::registry::RegistryStore;
use byteflow::scheduler::supervisor::{should_restart, ChildSpec, Supervisor, SupervisorConfig};
use byteflow::scheduler::timer::{TimerStep, TimerWheel};
use byteflow::scheduler::waits::{AskWaitIndex, KillSignals, WaitingSendIndex};
use byteflow::vm::fault::Fault;

type TestResult = Result<(), String>;

#[test]
fn cannot_escalate_via_delegate_regardless_of_requested_mask() {
    let cell = RevocationCell::new();
    let src = Cap::root(CapTarget::Flow(1), CapRights::send(), None, &cell);
    let out = match exec_delegate(
        &src,
        &cell,
        CapRights::send().union(CapRights::admin()).union(CapRights::native()),
        None,
    ) {
        Ok(c) => c,
        Err(_) => {
            assert!(false, "delegate of live SEND cap must succeed");
            return;
        }
    };
    assert!(out.rights.contains(CapRights::send()));
    assert!(!out.rights.contains(CapRights::admin()));
    assert!(!out.rights.contains(CapRights::native()));
}

#[test]
fn revoked_source_cannot_delegate() {
    let mut cell = RevocationCell::new();
    let src = Cap::root(CapTarget::Flow(1), CapRights::send(), None, &cell);
    cell.revoke();
    assert!(matches!(
        exec_delegate(&src, &cell, CapRights::send(), None),
        Err(DelegateError::SourceRevoked)
    ));
}

#[test]
fn a_mask_needs_the_native_right() {
    let cell = RevocationCell::new();
    let src = Cap::root(CapTarget::Flow(1), CapRights::send(), None, &cell);
    let mask = byteflow::NativeMask::new(1);
    assert_eq!(
        exec_delegate(&src, &cell, CapRights::send(), Some(&mask)),
        Err(DelegateError::SourceLacksNative)
    );
    assert_eq!(
        DelegateError::SourceLacksNative.to_text(),
        "delegate: source lacks NATIVE right"
    );
}

#[test]
fn capabilities_resolve_until_their_flow_is_revoked() {
    let mut ids = IdSource::new();
    let mut t = CapTable::new();
    let a = t.mint(&mut ids, FlowId(1), CapRights::send());
    let b = t.mint(&mut ids, FlowId(2), CapRights::ask());
    assert_ne!(a, b);
    assert_eq!(t.resolve(a).map(|e| e.flow), Some(FlowId(1)));
    assert!(t.resolve(CapId(99_999)).is_none());
    t.revoke_target(FlowId(1));
    assert!(t.resolve(a).is_none());
    assert_eq!(t.resolve(b).map(|e| e.rights), Some(CapRights::ask()));
    assert_eq!(b.to_text(), "cap#2");
}

#[test]
fn a_handle_of_one_table_means_nothing_in_another() {
    let mut ids = IdSource::new();
    let mut t = CapTable::new();
    let mut u = CapTable::new();
    let a = t.mint(&mut ids, FlowId(1), CapRights::send());
    let b = u.mint(&mut ids, FlowId(1), CapRights::send());
    assert_ne!(a, b);
    assert!(t.resolve(b).is_none());
    assert!(u.resolve(a).is_none());
    assert!(t.resolve(CapId(0)).is_none());
}

#[test]
fn only_the_owner_drops_a_monitor() {
    let mut m = MonitorStore::new();
    let r = m.create(FlowId(1), FlowId(2));
    assert_eq!(m.remove_owned(FlowId(3), r), Err(LifecycleError::NoSuchRelation));
    assert_eq!(m.remove_owned(FlowId(1), r), Ok(()));
    assert_eq!(m.remove_owned(FlowId(1), r), Err(LifecycleError::NoSuchRelation));
    let r = m.create(FlowId(1), FlowId(2));
    let events = m.notify_target_exit(FlowId(2), FlowExitReason::Killed);
    assert_eq!(events.len(), 1);
    assert_eq!((events[0].monitor, events[0].owner), (r, FlowId(1)));
    assert!(m.notify_target_exit(FlowId(2), FlowExitReason::Killed).is_empty());
}

#[test]
fn links_have_two_ends() {
    let mut l = LinkStore::new();
    assert_eq!(l.link(FlowId(1), FlowId(1)), Err(LifecycleError::SelfRelation));
    let id = l.link(FlowId(1), FlowId(2)).unwrap();
    let _ = l.link(FlowId(3), FlowId(1)).unwrap();
    assert_eq!(l.unlink_owned(FlowId(3), id), Err(LifecycleError::NoSuchRelation));
    let peers: Vec<FlowId> = l.remove_links_of(FlowId(1)).iter().map(|p| p.1).collect();
    assert_eq!(peers, vec![FlowId(2), FlowId(3)]);
    assert_eq!(l.len(), 0);
}

#[test]
fn names_are_unique_and_go_with_their_flow() {
    let mut r = RegistryStore::new();
    assert_eq!(r.register("a", CapId(1), FlowId(1)), Ok(()));
    assert_eq!(r.register("a", CapId(2), FlowId(2)), Err(LifecycleError::NameTaken));
    assert_eq!(r.register("b", CapId(2), FlowId(2)), Ok(()));
    assert_eq!(r.whereis("a"), Some(CapId(1)));
    r.unregister_flow(FlowId(1));
    assert_eq!(r.whereis("a"), None);
    assert_eq!(r.whereis("b"), Some(CapId(2)));
    assert!(r.unregister("b"));
    assert!(!r.unregister("b"));
}

#[test]
fn an_asker_waits_for_one_reply_at_a_time() {
    let mut a = AskWaitIndex::new();
    a.insert(FlowId(1), FlowId(9));
    a.insert(FlowId(2), FlowId(9));
    a.insert(FlowId(1), FlowId(8));
    assert_eq!(a.take_waiters_of(FlowId(9)), vec![2]);
    assert_eq!(a.remove_asker(FlowId(1)), Some(FlowId(8)));
    assert_eq!(a.remove_asker(FlowId(1)), None);
    assert!(a.take_waiters_of(FlowId(8)).is_empty());
}

#[test]
fn marks_and_waits_are_taken_once() {
    let mut k = KillSignals::new();
    k.set(FlowId(1), FlowExitReason::Link);
    assert_eq!(k.take(FlowId(1)), Some(FlowExitReason::Link));
    assert_eq!(k.take(FlowId(1)), None);
    let mut w = WaitingSendIndex::new();
    w.insert(FlowId(1), FlowId(2));
    assert_eq!(w.get(FlowId(1)), Some(FlowId(2)));
    assert_eq!(w.remove(FlowId(1)), Some(FlowId(2)));
    assert_eq!(w.get(FlowId(1)), None);
}

#[test]
fn deadlines_fire_in_order() {
    let mut t = TimerWheel::new();
    assert!(matches!(t.poll(0), TimerStep::Idle));
    t.schedule_receive_timeout(0, 30, FlowId(3), 0, 1);
    t.schedule_receive_timeout(0, 10, FlowId(1), 0, 1);
    t.schedule_receive_timeout(0, 10, FlowId(2), 0, 1);
    assert!(matches!(t.poll(4), TimerStep::Wait(6)));
    for id in [1u64, 2] {
        match t.poll(10) {
            TimerStep::Fire(e) => assert!(format!("{:?}", e.payload).contains(&format!("FlowId({id})"))),
            other => panic!("{other:?}"),
        }
    }
    assert!(matches!(t.poll(10), TimerStep::Wait(20)));
    t.shutdown();
    assert!(matches!(t.poll(100), TimerStep::Stop));
}

#[test]
fn identifiers_ascend() {
    let mut ids = IdSource::new();
    assert_eq!(next_flow_id(&mut ids), FlowId(1));
    assert_eq!(next_process_id(&mut ids), FlowId(2));
    assert_eq!(FlowId(7).to_text(), "flow#7");
}

#[test]
fn join_returns_the_sent_value() -> TestResult {
    let mut slot: Slot<u32> = Slot::new();
    slot.send(42);
    match slot.try_join().map_err(|e| e.to_text())? {
        JoinState::Ready(v) => assert_eq!(v, 42),
        JoinState::Pending => return Err("expected the value".into()),
    }
    Ok(())
}

#[test]
fn a_value_sent_before_the_drop_still_wins() -> TestResult {
    let mut slot: Slot<u32> = Slot::new();
    slot.send(7);
    slot.disconnect();
    match slot.try_join().map_err(|e| e.to_text())? {
        JoinState::Ready(v) => assert_eq!(v, 7),
        JoinState::Pending => return Err("a sent value must outrank the disconnect".into()),
    }
    Ok(())
}

#[test]
fn dropping_the_sender_before_the_join_reports_abandoned() -> TestResult {
    let mut slot: Slot<u32> = Slot::new();
    slot.disconnect();
    match slot.try_join() {
        Err(RuntimeError::Abandoned(_)) => Ok(()),
        other => Err(format!("expected Abandoned, got {other:?}")),
    }
}

#[test]
fn try_join_is_pending_while_the_flow_is_still_running() -> TestResult {
    let mut slot: Slot<u32> = Slot::new();
    match slot.try_join().map_err(|e| e.to_text())? {
        JoinState::Pending => Ok(()),
        JoinState::Ready(v) => Err(format!("nothing was sent, got {v}")),
    }
}

#[test]
fn the_value_is_handed_out_exactly_once() -> TestResult {
    let mut slot: Slot<u32> = Slot::new();
    slot.send(9);
    match slot.try_join().map_err(|e| e.to_text())? {
        JoinState::Ready(v) => assert_eq!(v, 9),
        JoinState::Pending => return Err("the value was already sent".into()),
    }
    match slot.try_join() {
        Err(RuntimeError::AlreadyCollected(_)) => Ok(()),
        other => Err(format!("expected AlreadyCollected, got {other:?}")),
    }
}

#[test]
fn a_timeout_leaves_the_receiver_usable() -> TestResult {
    let mut slot: Slot<u32> = Slot::new();
    let deadline = join_timeout(0, 30).ok_or("fits")?;
    assert!(matches!(slot.join_deadline(0, deadline), WaitStep::Sleep(30)));
    assert!(matches!(
        slot.join_deadline(30, deadline),
        WaitStep::Done(Ok(JoinState::Pending))
    ));
    slot.send(4);
    match slot.join_deadline(30, 60) {
        WaitStep::Done(Ok(JoinState::Ready(v))) => {
            assert_eq!(v, 4);
            Ok(())
        }
        other => Err(format!("the value was sent before this wait: {other:?}")),
    }
}

#[test]
fn abandonment_outranks_a_pending_timeout() -> TestResult {
    let mut slot: Slot<u32> = Slot::new();
    slot.disconnect();
    match slot.join_deadline(0, 30_000) {
        WaitStep::Done(Err(RuntimeError::Abandoned(_))) => Ok(()),
        other => Err(format!("expected Abandoned, got {other:?}")),
    }
}

#[test]
fn the_deadline_holds_under_a_storm_of_spurious_wakeups() -> TestResult {
    let mut slot: Slot<u32> = Slot::new();
    let deadline = join_timeout(0, 150).ok_or("fits")?;
    for now in 0..150u64 {
        match slot.join_deadline(now, deadline) {
            WaitStep::Sleep(ms) => assert_eq!(ms, 150 - now),
            other => return Err(format!("woke at {now}: {other:?}")),
        }
    }
    match slot.join_deadline(150, deadline) {
        WaitStep::Done(Ok(JoinState::Pending)) => Ok(()),
        other => Err(format!("{other:?}")),
    }
}

#[test]
fn a_timeout_beyond_the_clock_never_ends() {
    assert_eq!(join_timeout(1, u64::MAX), None);
    assert_eq!(join_timeout(1, 2), Some(3));
}

#[test]
fn a_broken_handover_joins_as_a_failure() {
    let h = FlowHandle::new(FlowId(5));
    assert_eq!(h.id(), FlowId(5));
    match h.join(Err(RuntimeError::Abandoned("here"))) {
        FlowOutcome::Failed(s) => assert_eq!(s, "abandoned before an outcome at here"),
        other => panic!("{other:?}"),
    }
}

#[test]
fn policy_table() {
    let ok = ProcessOutcome::Completed(Value::Unit);
    let fail = ProcessOutcome::Failed("boom".into());
    assert!(should_restart(RestartPolicy::Always, &ok));
    assert!(should_restart(RestartPolicy::Always, &fail));
    assert!(!should_restart(RestartPolicy::OnFailure, &ok));
    assert!(should_restart(RestartPolicy::OnFailure, &fail));
    assert!(!should_restart(RestartPolicy::Never, &ok));
    assert!(!should_restart(RestartPolicy::Never, &fail));
}

#[test]
fn restarts_outside_the_window_do_not_count() {
    let config = SupervisorConfig { max_restarts: 1, max_period: 100 };
    let mut sup = Supervisor::with_config(config);
    let fail = FlowOutcome::Failed("x".into());
    sup.adopt(FlowId(1), ChildSpec::new("c", 0));
    let spec = sup.handle_exit(FlowId(1), &fail, 1_000).expect("first restart");
    assert_eq!(spec.name, "c");
    sup.adopt(FlowId(2), spec);
    let spec = sup.handle_exit(FlowId(2), &fail, 2_000).expect("the first is long ago");
    sup.adopt(FlowId(3), spec);
    assert!(sup.handle_exit(FlowId(3), &fail, 2_050).is_none());
    assert!(sup.intensity_exceeded());
    assert_eq!(sup.live_children(), 0);
    assert!(sup.handle_exit(FlowId(77), &fail, 9_000).is_none());
}

#[test]
fn the_window_reaches_back_to_the_start_of_the_clock() {
    let config = SupervisorConfig { max_restarts: 1, max_period: 5_000 };
    let mut sup = Supervisor::with_config(config);
    let fail = FlowOutcome::Failed("x".into());
    sup.adopt(FlowId(1), ChildSpec::new("c", 0));
    let spec = sup.handle_exit(FlowId(1), &fail, 3).expect("first restart");
    sup.adopt(FlowId(2), spec);
    assert!(sup.handle_exit(FlowId(2), &fail, 4).is_none());
    assert!(sup.intensity_exceeded());
}

#[test]
fn faults_are_counted_and_reported() {
    let mut log = FaultLog::new();
    let line = report_fault(&mut log, &RuntimeError::PoisonedLock("place"));
    assert_eq!(line, "byteflow: runtime mutex poisoned at place \u{2014} fail-closed");
    assert_eq!(fault_count(&log), 1);
}

#[test]
fn texts_of_errors() {
    assert_eq!(
        SpawnError::from(Fault::BadFunction { index: 3, table_size: 2 }).to_text(),
        "spawn: function index 3 out of range (table size 2)"
    );
    assert!(matches!(
        SpawnError::from(Fault::DivideByZero),
        SpawnError::VmInit(_)
    ));
    assert_eq!(LifecycleError::NoSuchFlow(FlowId(4)).to_text(), "no live flow flow#4");
    assert_eq!(FlowExitReason::Link.to_text(), "link");
    assert_eq!(FlowExitReason::Killed.as_u64(), 2);
}

#[test]
fn a_search_goes_from_place_to_place() {
    assert!(matches!(
        search_step(Place::Own, Attempt::Empty, 2),
        Search::Look(Place::Shared)
    ));
    assert!(matches!(
        search_step(Place::Shared, Attempt::Empty, 2),
        Search::Look(Place::Other(0))
    ));
    assert!(matches!(
        search_step(Place::Other(0), Attempt::Retry, 2),
        Search::Look(Place::Other(0))
    ));
    assert!(matches!(
        search_step(Place::Other(1), Attempt::Empty, 2),
        Search::Over(Work::Nothing)
    ));
}

/// A search by one of the workers.
fn look(q: &Queues, worker: usize) -> Work {
    let mut others: Vec<_> = q.stealers.iter().collect();
    find_work(&mut &q.locals[worker], &mut &q.injector, &mut others)
}

#[test]
fn empty_queues_have_no_work() {
    let q = Queues::new(0);
    assert_eq!(q.locals.len(), 1);
    assert_eq!(publish(Vec::new(), &mut &q.locals[0], &mut &q.injector), 0);
    assert!(matches!(
        look(&q, 0),
        Work::Nothing
    ));
}
