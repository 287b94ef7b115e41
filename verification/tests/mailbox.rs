//! Mailboxes, their bounds and their queue.

use std::sync::Arc;

use byteflow::bytecode::builder::ChunkBuilder;
use byteflow::bytecode::value::{Message, Value};
use byteflow::scheduler::mailbox::capacity::{MailboxBytes, MailboxCapacity};
use byteflow::scheduler::mailbox::policy::{MailboxConfig, OverflowPolicy};
use byteflow::scheduler::mailbox::queue::{EnqueueEffect, MailboxFullReason, MailboxQueue};
use byteflow::scheduler::mailbox::{Delivery, Mailbox, MailboxFull, ParkSender, WaitFilter};
use byteflow::scheduler::process::{Flow, FlowId, RestartPolicy};
use byteflow::vm::machine::Vm;
use byteflow::vm::native::NativeTable;

type TestResult = Result<(), String>;

fn flow(id: u64) -> Result<Box<Flow>, String> {
    let mut b = ChunkBuilder::new("mb");
    b.begin_function("main", 0, 1);
    b.emit_return(0);
    let vm = Vm::new(Arc::new(b.finish()), NativeTable::empty(), 0, &[])
        .map_err(|e| e.to_text())?;
    Ok(Box::new(Flow::new(FlowId(id), vm, RestartPolicy::Never, None)))
}

fn dummy_flow() -> Result<Box<Flow>, String> {
    flow(1)
}

fn hop(sender: u64, request_id: u64, tag: u16, payload: u64) -> Value {
    Value::Message(Message::new(sender, request_id, tag, payload))
}

fn msg(tag: u16, payload: u64) -> Value {
    hop(1, 1, tag, payload)
}

fn push(mb: &mut Mailbox, v: Value) -> Result<Delivery, String> {
    mb.push(v).map_err(|e| e.to_text().to_owned())
}

fn tiny_reject(n: u32) -> Result<Mailbox, String> {
    let cap = MailboxCapacity::new(n).ok_or("invalid mailbox capacity")?;
    Ok(Mailbox::with_config(MailboxConfig::new(cap, OverflowPolicy::Reject)))
}

fn hop_msg(value: &Value) -> Result<Message, String> {
    value.as_message().ok_or("expected Message hop".to_owned())
}

#[test]
fn mailbox_try_pop_match_skips_non_matching_fifo() {
    let mut mb = Mailbox::new();
    push(&mut mb, msg(9, 1)).unwrap();
    push(&mut mb, msg(1, 42)).unwrap();
    push(&mut mb, msg(9, 2)).unwrap();
    let got = mb.try_pop_match(1).expect("match");
    assert_eq!(got.as_message().unwrap().payload, 42);
    assert_eq!(mb.try_pop().unwrap().as_message().unwrap().tag, 9);
    assert_eq!(mb.try_pop().unwrap().as_message().unwrap().payload, 2);
}

#[test]
fn mailbox_push_while_park_match_queues_junk_keeps_waiter() {
    let mut mb = Mailbox::new();
    assert!(mb.park_match(dummy_flow().unwrap(), 1).is_ok());
    assert!(matches!(push(&mut mb, msg(9, 0)).unwrap(), Delivery::Queued));
    assert!(matches!(push(&mut mb, msg(1, 7)).unwrap(), Delivery::Handoff(_)));
    assert_eq!(mb.try_pop().unwrap().as_message().unwrap().tag, 9);
}

#[test]
fn mailbox_ask_does_not_consume_reply_for_another_request() {
    let mut mb = Mailbox::new();
    push(&mut mb, hop(10, 2, 2, 99)).unwrap();
    push(&mut mb, hop(10, 1, 2, 42)).unwrap();
    let filter = WaitFilter::Correlation { expect_request_id: 1, expect_sender: Some(10) };
    let got = mb.try_pop_filter(filter).expect("id=1");
    assert_eq!(got.as_message().unwrap().payload, 42);
    let left = mb.try_pop().unwrap();
    assert_eq!(left.as_message().unwrap().request_id, 2);
}

#[test]
fn mailbox_ask_requires_reply_from_target() {
    let mut mb = Mailbox::new();
    let filter = WaitFilter::Correlation { expect_request_id: 1, expect_sender: Some(10) };
    assert!(mb.park_filter(dummy_flow().unwrap(), filter).is_ok());
    assert!(matches!(push(&mut mb, hop(99, 1, 2, 0)).unwrap(), Delivery::Queued));
    assert!(matches!(push(&mut mb, hop(10, 1, 2, 42)).unwrap(), Delivery::Handoff(_)));
    assert_eq!(mb.try_pop().unwrap().as_message().unwrap().sender, 99);
}

#[test]
fn mod_try_pop_match_skips_non_matching_fifo() -> TestResult {
    let mut mb = Mailbox::new();
    push(&mut mb, msg(9, 1))?;
    push(&mut mb, msg(1, 42))?;
    push(&mut mb, msg(9, 2))?;
    let got = mb.try_pop_match(1).ok_or("match")?;
    assert_eq!(hop_msg(&got)?.payload, 42);
    assert_eq!(hop_msg(&mb.try_pop().ok_or("first leftover")?)?.tag, 9);
    assert_eq!(hop_msg(&mb.try_pop().ok_or("second leftover")?)?.payload, 2);
    Ok(())
}

#[test]
fn mod_push_while_park_match_queues_junk_keeps_waiter() -> TestResult {
    let mut mb = Mailbox::new();
    assert!(mb.park_match(dummy_flow()?, 1).is_ok());
    assert!(matches!(push(&mut mb, msg(9, 0))?, Delivery::Queued));
    assert!(matches!(push(&mut mb, msg(1, 7))?, Delivery::Handoff(_)));
    assert_eq!(hop_msg(&mb.try_pop().ok_or("queued junk")?)?.tag, 9);
    Ok(())
}

#[test]
fn mod_ask_does_not_consume_reply_for_another_request() -> TestResult {
    let mut mb = Mailbox::new();
    push(&mut mb, hop(10, 2, 2, 99))?;
    push(&mut mb, hop(10, 1, 2, 42))?;
    let filter = WaitFilter::Correlation { expect_request_id: 1, expect_sender: Some(10) };
    let got = mb.try_pop_filter(filter).ok_or("id=1")?;
    assert_eq!(hop_msg(&got)?.payload, 42);
    let left = mb.try_pop().ok_or("leftover")?;
    assert_eq!(hop_msg(&left)?.request_id, 2);
    Ok(())
}

#[test]
fn mod_ask_requires_reply_from_target() -> TestResult {
    let mut mb = Mailbox::new();
    let filter = WaitFilter::Correlation { expect_request_id: 1, expect_sender: Some(10) };
    assert!(mb.park_filter(dummy_flow()?, filter).is_ok());
    assert!(matches!(push(&mut mb, hop(99, 1, 2, 0))?, Delivery::Queued));
    assert!(matches!(push(&mut mb, hop(10, 1, 2, 42))?, Delivery::Handoff(_)));
    assert_eq!(hop_msg(&mb.try_pop().ok_or("non-matching queued")?)?.sender, 99);
    Ok(())
}

#[test]
fn reject_when_full_without_waiter() -> TestResult {
    let mut mb = tiny_reject(1)?;
    assert!(matches!(push(&mut mb, msg(1, 1))?, Delivery::Queued));
    assert!(matches!(mb.push(msg(1, 2)), Err(MailboxFull { .. })));
    let s = mb.stats();
    assert_eq!(s.enqueued, 1);
    assert_eq!(s.rejected, 1);
    Ok(())
}

#[test]
fn matching_handoff_does_not_count_as_full() -> TestResult {
    let mut mb = tiny_reject(1)?;
    push(&mut mb, msg(9, 0))?;
    assert!(mb.park_match(dummy_flow()?, 1).is_ok());
    assert!(matches!(push(&mut mb, msg(1, 7))?, Delivery::Handoff(_)));
    assert_eq!(hop_msg(&mb.try_pop().ok_or("queued")?)?.tag, 9);
    Ok(())
}

#[test]
fn drop_oldest_still_wakes_on_match() -> TestResult {
    let cap = MailboxCapacity::new(1).ok_or("cap")?;
    let mut mb = Mailbox::with_config(MailboxConfig::new(cap, OverflowPolicy::DropOldest));
    assert!(mb.park_match(dummy_flow()?, 1).is_ok());
    push(&mut mb, msg(9, 1))?;
    assert!(matches!(push(&mut mb, msg(1, 2))?, Delivery::Handoff(_)));
    Ok(())
}

#[test]
fn parking_takes_a_message_that_is_there_already() -> TestResult {
    let mut mb = Mailbox::new();
    push(&mut mb, msg(3, 8))?;
    match mb.park_match(dummy_flow()?, 3) {
        Err(f) => assert_eq!(f.pending_message, Some(msg(3, 8))),
        Ok(_) => return Err("the message was lost".into()),
    }
    assert!(mb.try_pop().is_none());
    Ok(())
}

#[test]
fn a_deadline_ends_only_its_own_wait() -> TestResult {
    let mut mb = Mailbox::new();
    let first = mb.park(dummy_flow()?).map_err(|_| "parks")?;
    let f = mb.take_parked_at(first).ok_or("the wait is still on")?;
    let second = mb.park(f).map_err(|_| "parks")?;
    assert_ne!(first, second);
    assert!(mb.take_parked_at(first).is_none());
    assert!(mb.take_parked_at(second).is_some());
    Ok(())
}

#[test]
fn notices_are_never_refused() -> TestResult {
    let mut mb = tiny_reject(1)?;
    push(&mut mb, msg(1, 1))?;
    assert!(matches!(mb.push_system(msg(2, 2)), Delivery::Queued));
    assert_eq!(mb.stats().queued_messages, 2);
    Ok(())
}

#[test]
fn a_sender_waits_for_room_and_gets_it() -> TestResult {
    let mut mb = tiny_reject(1)?;
    push(&mut mb, msg(1, 1))?;
    assert!(matches!(mb.park_sender(flow(7)?, msg(1, 2)), ParkSender::Parked));
    assert!(mb.admit_waiting_sender().is_none());
    assert_eq!(hop_msg(&mb.try_pop().ok_or("first")?)?.payload, 1);
    assert_eq!(mb.admit_waiting_sender().ok_or("room")?.id, FlowId(7));
    assert_eq!(hop_msg(&mb.try_pop().ok_or("second")?)?.payload, 2);
    Ok(())
}

#[test]
fn closing_gives_the_waiting_senders_back() -> TestResult {
    let mut mb = tiny_reject(1)?;
    assert!(matches!(mb.park_sender(flow(7)?, msg(1, 2)), ParkSender::Parked));
    assert!(matches!(mb.park_sender(flow(8)?, msg(1, 3)), ParkSender::Parked));
    assert_eq!(mb.take_waiting_sender(FlowId(8)).ok_or("there")?.id, FlowId(8));
    let left = mb.close();
    assert_eq!(left.len(), 1);
    assert_eq!(left[0].0.id, FlowId(7));
    assert!(matches!(mb.park_sender(flow(9)?, msg(1, 4)), ParkSender::Closed(_)));
    Ok(())
}

#[test]
fn the_byte_budget_refuses_big_messages() -> TestResult {
    let cap = MailboxCapacity::new(8).ok_or("cap")?;
    let bytes = MailboxBytes::new(MailboxBytes::MIN).ok_or("bytes")?;
    let config = MailboxConfig::new(cap, OverflowPolicy::Reject).with_bytes(bytes);
    let mut mb = Mailbox::with_config(config);
    let big = Value::bytes(&vec![0u8; MailboxBytes::MIN]);
    match mb.push(big) {
        Err(full) => assert_eq!(full.reason(), MailboxFullReason::Bytes),
        Ok(d) => return Err(format!("{d:?}")),
    }
    assert_eq!(mb.stats().rejected_byte_limit, 1);
    assert_eq!(mb.stats().rejected, 1);
    for n in 0..16 {
        let _ = mb.push(msg(1, n));
    }
    assert!(mb.stats().rejected > 1);
    assert!(mb.stats().rejected_byte_limit <= mb.stats().rejected);
    Ok(())
}

#[test]
fn rejects_zero_and_over_max() -> Result<(), &'static str> {
    assert!(MailboxCapacity::new(0).is_none());
    assert!(MailboxCapacity::new(MailboxCapacity::MAX + 1).is_none());
    let min = MailboxCapacity::new(1).ok_or("min capacity")?;
    assert_eq!(min.get(), 1);
    let max = MailboxCapacity::new(MailboxCapacity::MAX).ok_or("max capacity")?;
    assert_eq!(max.get_u32(), MailboxCapacity::MAX);
    Ok(())
}

#[test]
fn default_is_compile_time_valid() {
    assert_eq!(MailboxCapacity::default().get(), 256);
    assert!(MailboxCapacity::new(256).is_some());
}

#[test]
fn byte_budget_rejects_out_of_range() -> Result<(), &'static str> {
    assert!(MailboxBytes::new(0).is_none());
    assert!(MailboxBytes::new(MailboxBytes::MIN - 1).is_none());
    assert!(MailboxBytes::new(MailboxBytes::MAX + 1).is_none());
    let min = MailboxBytes::new(MailboxBytes::MIN).ok_or("min bytes")?;
    assert_eq!(min.get(), MailboxBytes::MIN);
    Ok(())
}

#[test]
fn byte_budget_default_holds_a_full_scalar_inbox() {
    let worst = MailboxCapacity::default().get() * std::mem::size_of::<Value>();
    assert!(MailboxBytes::default().get() > worst);
}

#[test]
fn byte_budget_default_fits_one_max_hop() {
    const MAX_BLOB: usize = 1_048_576;
    let biggest = Value::bytes(&vec![0u8; MAX_BLOB]);
    assert!(biggest.memory_size() <= MailboxBytes::default().get());
}

#[test]
fn default_is_reject_256() {
    let c = MailboxConfig::default();
    assert_eq!(c.capacity().get(), 256);
    assert_eq!(c.bytes().get(), MailboxBytes::default().get());
    assert_eq!(c.overflow(), OverflowPolicy::Reject);
}

#[test]
fn new_preserves_parts() -> Result<(), &'static str> {
    let cap = MailboxCapacity::new(4).ok_or("cap")?;
    let c = MailboxConfig::new(cap, OverflowPolicy::DropOldest);
    assert_eq!(c.capacity().get(), 4);
    assert_eq!(c.overflow(), OverflowPolicy::DropOldest);
    assert_eq!(c.bytes().get(), MailboxBytes::default().get());
    Ok(())
}

#[test]
fn with_bytes_narrows_only_the_budget() -> Result<(), &'static str> {
    let cap = MailboxCapacity::new(4).ok_or("cap")?;
    let budget = MailboxBytes::new(8192).ok_or("bytes")?;
    let c = MailboxConfig::new(cap, OverflowPolicy::DropOldest).with_bytes(budget);
    assert_eq!(c.bytes().get(), 8192);
    assert_eq!(c.capacity().get(), 4);
    assert_eq!(c.overflow(), OverflowPolicy::DropOldest);
    Ok(())
}

fn numbered(n: u64) -> Value {
    Value::Message(Message::new(1, n, 1, n))
}

fn hop_payload(q: &mut MailboxQueue) -> Result<u64, &'static str> {
    if q.is_empty() {
        return Err("queue empty");
    }
    match q.take(0).as_message() {
        Some(m) => Ok(m.payload),
        None => Err("expected Message"),
    }
}

#[test]
fn reject_at_limit() {
    let mut q = MailboxQueue::new(2);
    assert!(matches!(
        q.enqueue(numbered(1), OverflowPolicy::Reject),
        Ok(EnqueueEffect::Enqueued)
    ));
    assert!(matches!(
        q.enqueue(numbered(2), OverflowPolicy::Reject),
        Ok(EnqueueEffect::Enqueued)
    ));
    assert!(q.enqueue(numbered(3), OverflowPolicy::Reject).is_err());
    assert_eq!(q.len(), 2);
}

#[test]
fn drop_newest_keeps_old() -> Result<(), &'static str> {
    let mut q = MailboxQueue::new(1);
    let _ = q.enqueue(numbered(1), OverflowPolicy::DropNewest);
    assert_eq!(
        q.enqueue(numbered(2), OverflowPolicy::DropNewest),
        Ok(EnqueueEffect::DroppedNewest)
    );
    assert_eq!(hop_payload(&mut q)?, 1);
    Ok(())
}

#[test]
fn drop_oldest_slides() -> Result<(), &'static str> {
    let mut q = MailboxQueue::new(2);
    let _ = q.enqueue(numbered(1), OverflowPolicy::DropOldest);
    let _ = q.enqueue(numbered(2), OverflowPolicy::DropOldest);
    assert!(matches!(
        q.enqueue(numbered(3), OverflowPolicy::DropOldest),
        Ok(EnqueueEffect::DroppedOldest(_))
    ));
    assert_eq!(hop_payload(&mut q)?, 2);
    assert_eq!(hop_payload(&mut q)?, 3);
    Ok(())
}
