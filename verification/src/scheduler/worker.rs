//! What the scheduler does for a flow that stopped running.

use std::sync::Arc;

use vstd::prelude::*;

use super::capability::{CapId, CapRights};
use super::error::SpawnError;
use super::mailbox::queue::MailboxFullReason;
use super::mailbox::{Delivery, Mailbox, ParkSender, WaitFilter};
use super::metrics::RuntimeMetrics;
use super::model::{
    cap_target, cap_target_for, delivered, failed, fired, parked_for_reply, parked_for_room,
    parked_on_mailbox, room_given, spawned, spawned_ids, stamped, Lane, SharedView,
};
use super::monitor::FlowExitReason;
use super::process::{
    Flow, FlowId, FlowOutcome, FlowView, Ids, OutcomeView, PendingSend, RestartPolicy,
};
use super::shared::Shared;
use super::timer::{TimerEntry, TimerPayload};
use crate::bytecode::chunk::Chunk;
use crate::bytecode::value::{Message, Value};
use crate::text::dec;
use crate::vm::machine::Vm;
use crate::vm::native::{NativeGate, NativeTable};

verus! {

/// What a delivery came to, for the sender.
#[derive(Clone, Copy, Debug, PartialEq, Eq, Structural)]
pub enum DeliverStatus {
    /// The message is with the target, or was dropped by its policy, or the
    /// target is gone.
    Done,
    Full(MailboxFullReason),
}

impl DeliverStatus {
    pub open spec fn refusal(self) -> Option<MailboxFullReason> {
        match self {
            DeliverStatus::Done => None,
            DeliverStatus::Full(cause) => Some(cause),
        }
    }
}

pub open spec fn text_result(r: Result<FlowId, String>) -> Result<FlowId, Seq<char>> {
    match r {
        Ok(f) => Ok(f),
        Err(s) => Err(s@),
    }
}

impl Shared {
    fn unknown_cap(raw: u64) -> (s: String)
        ensures
            s@ == "unknown or revoked capability cap#"@ + dec(raw as nat),
    {
        let mut s = String::from_str("unknown or revoked capability cap#");
        crate::text::push_dec(&mut s, raw);
        s
    }

    /// The flow behind a capability, whatever its rights.
    pub fn resolve_cap_any(&self, raw: u64) -> (r: Result<FlowId, String>)
        ensures
            text_result(r) == cap_target(self@, raw),
    {
        match self.caps.resolve(CapId(raw)) {
            Some(entry) => Ok(entry.flow),
            None => Err(Shared::unknown_cap(raw)),
        }
    }

    /// The flow behind a capability that has the needed rights.
    pub fn resolve_cap(&self, raw: u64, need: CapRights) -> (r: Result<FlowId, String>)
        ensures
            text_result(r) == cap_target_for(self@, raw, need),
    {
        match self.caps.resolve(CapId(raw)) {
            Some(entry) => {
                if entry.rights.contains(need) {
                    Ok(entry.flow)
                } else {
                    let mut s = String::from_str("capability cap#");
                    crate::text::push_dec(&mut s, raw);
                    s.append(" lacks required rights");
                    Err(s)
                }
            },
            None => Err(Shared::unknown_cap(raw)),
        }
    }

    /// Stamp a message that leaves a flow: with the flow as its sender, and
    /// with a new capability that can only send to it. What the message said
    /// before is not looked at.
    pub fn authenticate_outgoing_message(
        &mut self,
        ids: &mut Ids,
        current_flow: FlowId,
        message: Message,
    ) -> (m: Message)
        ensures
            (final(self)@, m) == stamped(old(self)@, old(ids)@, current_flow, message),
            final(ids)@ == old(ids)@.cap_drawn(),
    {
        let reply = self.caps.mint(&mut ids.caps, current_flow, CapRights::send());
        assert(self@ =~= stamped(old(self)@, old(ids)@, current_flow, message).0);
        message.authenticate(current_flow.0, reply.0)
    }

    /// Deliver a message to a flow.
    pub fn deliver(&mut self, lane: Lane, target: FlowId, message: Value) -> (r: DeliverStatus)
        ensures
            (final(self)@, r.refusal()) == delivered(old(self)@, lane, target, message),
    {
        let ghost s = self@;
        let mut mailbox = match self.directory.unregister(target) {
            Some(m) => m,
            None => {
                assert(self@ =~= s);
                return DeliverStatus::Done;
            },
        };
        let outcome = mailbox.push(message.clone());
        self.directory.register(target, mailbox);
        assert(self@ =~= s.with_mailbox(target, mailbox@));
        match outcome {
            Ok(Delivery::Handoff(f)) => {
                let mut flow = f;
                let _ = self.ask_waits.remove_asker(flow.id);
                flow.receive(message);
                self.make_ready(lane, flow);
                assert(self@ =~= delivered(s, lane, target, message).0);
                DeliverStatus::Done
            },
            Ok(_) => DeliverStatus::Done,
            Err(full) => DeliverStatus::Full(full.reason()),
        }
    }

    /// A flow completes.
    pub fn finish_ok(&mut self, flow: Box<Flow>, value: Value)
        ensures
            final(self)@ == super::model::finished(
                old(self)@,
                (*flow)@,
                OutcomeView::Completed(value),
                FlowExitReason::Normal,
            ),
    {
        self.finalize_flow(flow, FlowOutcome::Completed(value), FlowExitReason::Normal);
    }

    /// A flow fails.
    pub fn finish_failed(&mut self, flow: Box<Flow>, text: String)
        ensures
            final(self)@ == failed(old(self)@, (*flow)@, text@),
    {
        self.finalize_flow(flow, FlowOutcome::Failed(text), FlowExitReason::Fault);
    }

    /// Have a flow wait for a message, unless one is there already.
    pub fn park_on_mailbox(
        &mut self,
        now: u64,
        flow: Box<Flow>,
        dest_reg: u8,
        timeout: Option<u64>,
        filter: WaitFilter,
    )
        ensures
            final(self)@ == parked_on_mailbox(
                old(self)@,
                now,
                (*flow)@,
                dest_reg,
                timeout,
                filter,
            ),
    {
        let ghost s = self@;
        let id = flow.id;
        let mut mailbox = match self.directory.unregister(id) {
            Some(m) => m,
            None => {
                assert(self@ =~= s);
                self.finish_failed(flow, String::from_str("mailbox gone"));
                return;
            },
        };
        let outcome = mailbox.park_filter(flow, filter);
        self.directory.register(id, mailbox);
        assert(self@ =~= s.with_mailbox(id, mailbox@));
        match outcome {
            Ok(epoch) => {
                match timeout {
                    Some(delay) => {
                        self.timer.schedule_receive_timeout(now, delay, id, dest_reg, epoch);
                        assert(self@ =~= parked_on_mailbox(
                            s,
                            now,
                            (*flow)@,
                            dest_reg,
                            timeout,
                            filter,
                        ));
                    },
                    None => {},
                }
            },
            Err(f) => {
                let mut flow = f;
                match flow.pending_message.take() {
                    Some(v) => flow.receive_at(dest_reg, v),
                    None => {},
                }
                self.make_ready(Lane::Global, flow);
            },
        }
    }

    /// Have a flow wait for the reply of `target`. It does not wait if the
    /// reply is there already, or if the target is gone.
    pub fn park_ask(
        &mut self,
        now: u64,
        flow: Box<Flow>,
        dest_reg: u8,
        timeout: Option<u64>,
        filter: WaitFilter,
        target: FlowId,
    )
        ensures
            final(self)@ == parked_for_reply(
                old(self)@,
                now,
                (*flow)@,
                dest_reg,
                timeout,
                filter,
                target,
            ),
    {
        let ghost s = self@;
        let ghost f0 = (*flow)@;
        let asker = flow.id;
        self.ask_waits.insert(asker, target);
        let ghost asking = self@;
        assert(asking =~= SharedView { asks: s.asks.attached(asker.0, target.0), ..s });
        let ghost free = SharedView { asks: asking.asks.detached(asker.0), ..s };
        let mut mailbox = match self.directory.unregister(asker) {
            Some(m) => m,
            None => {
                let _ = self.ask_waits.remove_asker(asker);
                assert(self@ =~= free);
                self.finish_failed(flow, String::from_str("mailbox gone"));
                return;
            },
        };
        let ghost m = mailbox@;
        let outcome = mailbox.park_filter(flow, filter);
        self.directory.register(asker, mailbox);
        assert(self@ =~= asking.with_mailbox(asker, mailbox@));
        match outcome {
            Ok(epoch) => {
                if !self.directory.contains(target) {
                    let mut mailbox = match self.directory.unregister(asker) {
                        Some(m) => m,
                        None => return,
                    };
                    let parked = mailbox.take_parked();
                    self.directory.register(asker, mailbox);
                    let _ = self.ask_waits.remove_asker(asker);
                    assert(self@ =~= free.with_mailbox(
                        asker,
                        m.parked_with(f0, filter).unparked(),
                    ));
                    match parked {
                        Some(f) => {
                            let mut flow = f;
                            flow.receive_at(
                                dest_reg,
                                Value::Message(
                                    Message::linked_exit(target.0, FlowExitReason::Fault.as_u64()),
                                ),
                            );
                            self.make_ready(Lane::Global, flow);
                        },
                        None => {},
                    }
                    return;
                }
                match timeout {
                    Some(delay) => {
                        self.timer.schedule_receive_timeout(now, delay, asker, dest_reg, epoch);
                        assert(self@ =~= parked_for_reply(
                            s,
                            now,
                            f0,
                            dest_reg,
                            timeout,
                            filter,
                            target,
                        ));
                    },
                    None => {},
                }
            },
            Err(f) => {
                let mut flow = f;
                let _ = self.ask_waits.remove_asker(asker);
                assert(self@ =~= free.with_mailbox(asker, mailbox@));
                match flow.pending_message.take() {
                    Some(v) => flow.receive_at(dest_reg, v),
                    None => {},
                }
                self.make_ready(Lane::Global, flow);
            },
        }
    }

    /// Have a flow wait for room in the mailbox of `target`.
    pub fn park_waiting_send(
        &mut self,
        flow: Box<Flow>,
        target: FlowId,
        message: Value,
        pending: PendingSend,
    )
        ensures
            final(self)@ == parked_for_room(old(self)@, (*flow)@, target, message, pending),
    {
        let ghost s = self@;
        let ghost given = (*flow)@;
        let mut flow = flow;
        flow.pending_send = Some(pending);
        assert((*flow)@ =~= FlowView { pending_send: Some(pending), ..given });
        let id = flow.id;
        self.waiting_send_at.insert(id, target);
        let mut mailbox = match self.directory.unregister(target) {
            Some(m) => m,
            None => {
                let _ = self.waiting_send_at.remove(id);
                assert(self@ =~= SharedView {
                    waiting_send: s.waiting_send.insert(id.0, target.0).remove(id.0),
                    ..s
                });
                self.finish_failed(flow, String::from_str("send target gone"));
                return;
            },
        };
        let ghost m = mailbox@;
        let outcome = mailbox.park_sender(flow, message);
        self.directory.register(target, mailbox);
        match outcome {
            ParkSender::Parked => {
                assert(self@ =~= parked_for_room(s, given, target, message, pending));
            },
            ParkSender::Closed(flow) => {
                let _ = self.waiting_send_at.remove(id);
                assert(self@.directory =~= s.directory);
                assert(self@ =~= SharedView {
                    waiting_send: s.waiting_send.insert(id.0, target.0).remove(id.0),
                    ..s
                });
                self.finish_failed(flow, String::from_str("send target gone"));
            },
        }
    }

    /// Let the first sender that waits for room in the mailbox of `owner` go
    /// on, if there is room for its message.
    pub fn admit_waiting_on(&mut self, now: u64, lane: Lane, owner: FlowId)
        ensures
            final(self)@ == room_given(old(self)@, now, lane, owner),
    {
        let ghost s = self@;
        let mut mailbox = match self.directory.unregister(owner) {
            Some(m) => m,
            None => {
                assert(self@ =~= s);
                return;
            },
        };
        let admitted = mailbox.admit_waiting_sender();
        self.directory.register(owner, mailbox);
        assert(self@ =~= s.with_mailbox(owner, mailbox@));
        match admitted {
            Some(f) => {
                let mut sender = f;
                let _ = self.waiting_send_at.remove(sender.id);
                assert(self@ =~= SharedView {
                    waiting_send: s.waiting_send.remove(sender.id.0),
                    ..s.with_mailbox(owner, mailbox@)
                });
                match sender.pending_send.take() {
                    Some(
                        PendingSend::Ask { dest_reg, expect_request_id, expect_sender, timeout },
                    ) => {
                        let filter = WaitFilter::Correlation {
                            expect_request_id,
                            expect_sender: Some(expect_sender),
                        };
                        self.park_ask(now, sender, dest_reg, timeout, filter, FlowId(expect_sender));
                    },
                    _ => self.make_ready(lane, sender),
                }
            },
            None => {},
        }
    }

    /// Do what is due at a deadline.
    pub fn fire(&mut self, entry: TimerEntry)
        ensures
            final(self)@ == fired(old(self)@, entry@),
    {
        let ghost s = self@;
        match entry.payload {
            TimerPayload::WakeSleeper(flow) => self.make_ready(Lane::Global, flow),
            TimerPayload::WakeReceiver { pid, dest_reg, epoch } => {
                let mut mailbox = match self.directory.unregister(pid) {
                    Some(m) => m,
                    None => {
                        assert(self@ =~= s);
                        return;
                    },
                };
                let ghost m = mailbox@;
                let parked = mailbox.take_parked_at(epoch);
                self.directory.register(pid, mailbox);
                assert(self@ =~= s.with_mailbox(pid, mailbox@));
                assert(m.epoch != epoch ==> self@.directory =~= s.directory);
                match parked {
                    Some(f) => {
                        let mut flow = f;
                        let _ = self.ask_waits.remove_asker(flow.id);
                        flow.resume(dest_reg, Value::Unit);
                        self.make_ready(Lane::Global, flow);
                        assert(self@ =~= fired(s, entry@));
                    },
                    None => {
                        assert(self@ =~= fired(s, entry@));
                    },
                }
            },
        }
    }

    /// Start a flow.
    pub fn spawn_on(
        &mut self,
        ids: &mut Ids,
        chunk: &Arc<Chunk>,
        natives: &Arc<NativeTable>,
        gate: NativeGate,
        function: u32,
        args: &[Value],
        restart_policy: RestartPolicy,
        supervisor: Option<u64>,
    ) -> (r: Result<FlowId, SpawnError>)
        ensures
            (final(self)@, spawn_result(r)) == spawned(
                old(self)@,
                old(ids)@,
                **chunk,
                natives@,
                gate@,
                function,
                args@,
                restart_policy,
                supervisor,
            ),
            final(ids)@ == spawned_ids(old(self)@, old(ids)@),
    {
        let ghost s = self@;
        if self.max_flows > 0 {
            let current: usize = self.directory.len();
            if current >= self.max_flows as usize {
                return Err(SpawnError::FlowLimit { current, max: self.max_flows });
            }
        }
        let id = super::process::next_flow_id(&mut ids.flows);
        let vm = match Vm::with_native_gate(chunk.clone(), natives.clone(), gate, function, args) {
            Ok(vm) => vm,
            Err(fault) => {
                let e = SpawnError::from(fault);
                return Err(e);
            },
        };
        self.directory.register(id, Mailbox::with_config(self.mailbox));
        RuntimeMetrics::inc(&mut self.metrics.processes_spawned);
        let flow = Box::new(Flow::new(id, vm, restart_policy, supervisor));
        self.make_ready(Lane::Global, flow);
        assert(self@ =~= spawned(
            s,
            old(ids)@,
            **chunk,
            natives@,
            gate@,
            function,
            args@,
            restart_policy,
            supervisor,
        ).0);
        Ok(id)
    }
}

/// The result of a start as a mathematical value.
pub open spec fn spawn_result(r: Result<FlowId, SpawnError>) -> Result<
    FlowId,
    super::error::SpawnErrorView,
> {
    match r {
        Ok(id) => Ok(id),
        Err(e) => Err(e@),
    }
}

} // verus!
