//! One turn of a flow: what happens before it runs, and what the scheduler
//! does about that for which it stopped.

use vstd::prelude::*;

use super::capability::{CapId, CapRights};
use super::delegate::{exec_delegate, DelegateError};
use super::link::LinkId;
use super::mailbox::WaitFilter;
use super::metrics::RuntimeMetrics;
use super::model::{
    after_ask, after_delegate, after_delegate_ids, after_demonitor, after_hop_ids, after_link,
    after_monitor, after_receive, after_send, after_spawn, after_spawn_ids, after_unlink, applied,
    applied_ids, begun, cap_granted, child_gate, int_of, reference_in, sent_counted, yielded, Lane,
    SharedView,
};
use super::monitor::MonitorRef;
use super::process::{opt_flow_view, Flow, FlowId, FlowOutcome, Ids, PendingSend};
use super::shared::Shared;
use super::worker::DeliverStatus;
use crate::bytecode::cap::{Cap, CapTarget, NativeMask, RevocationCell};
use crate::bytecode::value::Value;
use crate::vm::native::NativeGate;
use crate::vm::result::VmResult;

verus! {

/// A number as an integer value, the largest one if it does not fit.
fn int_value(n: u64) -> (v: Value)
    ensures
        v == int_of(n),
{
    if n <= i64::MAX as u64 {
        Value::Int(n as i64)
    } else {
        Value::Int(i64::MAX)
    }
}

/// The reference in a register of the innermost frame.
fn reference(flow: &Flow, reg: u8) -> (r: Option<u64>)
    ensures
        r == reference_in(flow@, reg),
{
    match flow.vm.top_registers() {
        Some(regs) => {
            let i: usize = reg as usize;
            if i < regs.len() {
                match &regs[i] {
                    Value::Int(n) => {
                        if *n >= 0 {
                            Some(*n as u64)
                        } else {
                            None
                        }
                    },
                    _ => None,
                }
            } else {
                None
            }
        },
        None => None,
    }
}

impl Shared {
    /// Prepare a flow that gets a worker. `None` if the flow was marked to be
    /// killed and has ended.
    pub fn begin_quantum(&mut self, flow: Box<Flow>) -> (r: Option<Box<Flow>>)
        ensures
            (final(self)@, opt_flow_view(r)) == begun(old(self)@, (*flow)@),
    {
        let ghost s = self@;
        let mut flow = flow;
        match flow.pending_message.take() {
            Some(v) => flow.receive(v),
            None => {},
        }
        let signal = self.kill_signals.take(flow.id);
        assert(self@ =~= SharedView { kills: s.kills.remove(flow.id.0), ..s });
        match signal {
            Some(reason) => {
                let mut text = String::from_str("linked exit (");
                text.append(reason.to_text());
                text.append(")");
                self.finalize_flow(flow, FlowOutcome::Failed(text), reason);
                None
            },
            None => Some(flow),
        }
    }

    fn grant(
        &mut self,
        ids: &mut Ids,
        flow: Box<Flow>,
        dest_reg: u8,
        target: FlowId,
        rights: CapRights,
    ) -> (r: Option<Box<Flow>>)
        ensures
            (final(self)@, opt_flow_view(r)) == cap_granted(
                old(self)@,
                old(ids)@,
                (*flow)@,
                dest_reg,
                target,
                rights,
            ),
            final(ids)@ == old(ids)@.cap_drawn(),
    {
        let mut flow = flow;
        let cap = self.caps.mint(&mut ids.caps, target, rights);
        flow.resume(dest_reg, Value::Cap(cap.0));
        assert(self@ =~= SharedView {
            caps: old(self)@.caps.minted(cap.0, target, rights),
            ..old(self)@
        });
        Some(flow)
    }

    fn on_yield(&mut self, flow: Box<Flow>)
        ensures
            final(self)@ == yielded(old(self)@, (*flow)@),
    {
        let ghost given = (*flow)@;
        let mut flow = flow;
        RuntimeMetrics::inc(&mut self.metrics.reschedules);
        flow.metrics.reschedules = flow.metrics.reschedules.wrapping_add(1);
        self.make_ready(Lane::Local, flow);
        assert(self@ =~= yielded(old(self)@, given));
    }

    fn on_spawn(
        &mut self,
        ids: &mut Ids,
        flow: Box<Flow>,
        function: u32,
        args: &[Value],
        dest_reg: u8,
        requested: CapRights,
    ) -> (r: Option<Box<Flow>>)
        ensures
            (final(self)@, opt_flow_view(r)) == after_spawn(
                old(self)@,
                old(ids)@,
                (*flow)@,
                function,
                args@,
                dest_reg,
                requested,
            ),
            final(ids)@ == after_spawn_ids(
                old(self)@,
                old(ids)@,
                (*flow)@,
                function,
                args@,
                requested,
            ),
    {
        let chunk = flow.vm.chunk_arc();
        let natives = flow.vm.natives_arc();
        let gate = if requested.bits == 0 || requested.contains(CapRights::native()) {
            flow.vm.native_gate()
        } else {
            NativeGate::deny(natives.len())
        };
        assert(gate@ =~= child_gate((*flow)@.vm, requested));
        match self.spawn_on(ids, &chunk, &natives, gate, function, args, flow.restart_policy, None) {
            Ok(child) => self.grant(ids, flow, dest_reg, child, CapRights::send_ask()),
            Err(e) => {
                self.finish_failed(flow, e.to_text());
                None
            },
        }
    }

    fn on_send(&mut self, ids: &mut Ids, flow: Box<Flow>, target_cap: u64, message: Value) -> (r:
        Option<Box<Flow>>)
        ensures
            (final(self)@, opt_flow_view(r)) == after_send(
                old(self)@,
                old(ids)@,
                (*flow)@,
                target_cap,
                message,
            ),
            final(ids)@ == after_hop_ids(
                old(self)@,
                old(ids)@,
                target_cap,
                message,
                CapRights::send(),
            ),
    {
        let msg = match message.as_message() {
            Some(m) => m,
            None => {
                self.finish_failed(
                    flow,
                    String::from_str("Send invariant broken: hop is not Value::Message"),
                );
                return None;
            },
        };
        let target = match self.resolve_cap(target_cap, CapRights::send()) {
            Ok(id) => id,
            Err(e) => {
                self.finish_failed(flow, e);
                return None;
            },
        };
        let mut flow = flow;
        let hop = Value::Message(self.authenticate_outgoing_message(ids, flow.id, msg));
        let ghost t = self@;
        RuntimeMetrics::inc(&mut self.metrics.messages_sent);
        assert(self@ =~= sent_counted(t));
        flow.count_sent();
        match self.deliver(Lane::Local, target, hop.clone()) {
            DeliverStatus::Done => Some(flow),
            DeliverStatus::Full(_) => {
                self.park_waiting_send(flow, target, hop, PendingSend::FireAndForget);
                None
            },
        }
    }

    fn on_receive(
        &mut self,
        now: u64,
        flow: Box<Flow>,
        dest_reg: u8,
        timeout: Option<u64>,
        match_tag: Option<u16>,
    ) -> (r: Option<Box<Flow>>)
        ensures
            (final(self)@, opt_flow_view(r)) == after_receive(
                old(self)@,
                now,
                (*flow)@,
                dest_reg,
                timeout,
                match_tag,
            ),
    {
        let ghost s = self@;
        let mut flow = flow;
        flow.last_receive_dest = Some(dest_reg);
        let filter = match match_tag {
            None => WaitFilter::Any,
            Some(tag) => WaitFilter::Tag(tag),
        };
        let id = flow.id;
        let mut mailbox = match self.directory.unregister(id) {
            Some(m) => m,
            None => {
                assert(self@ =~= s);
                self.finish_failed(flow, String::from_str("mailbox gone"));
                return None;
            },
        };
        let popped = mailbox.try_pop_filter(filter);
        self.directory.register(id, mailbox);
        assert(self@ =~= s.with_mailbox(id, mailbox@));
        match popped {
            Some(v) => {
                flow.receive_at(dest_reg, v);
                self.admit_waiting_on(now, Lane::Local, id);
                Some(flow)
            },
            None => {
                assert(self@.directory =~= s.directory);
                assert(self@ =~= s);
                self.park_on_mailbox(now, flow, dest_reg, timeout, filter);
                None
            },
        }
    }

    fn on_ask(
        &mut self,
        ids: &mut Ids,
        now: u64,
        flow: Box<Flow>,
        dest_reg: u8,
        target_cap: u64,
        request: Value,
        timeout: Option<u64>,
    ) -> (r: Option<Box<Flow>>)
        ensures
            (final(self)@, opt_flow_view(r)) == after_ask(
                old(self)@,
                old(ids)@,
                now,
                (*flow)@,
                dest_reg,
                target_cap,
                request,
                timeout,
            ),
            final(ids)@ == after_hop_ids(
                old(self)@,
                old(ids)@,
                target_cap,
                request,
                CapRights::ask(),
            ),
    {
        let msg = match request.as_message() {
            Some(m) => m,
            None => {
                self.finish_failed(
                    flow,
                    String::from_str("Ask invariant broken: request is not Value::Message"),
                );
                return None;
            },
        };
        let target = match self.resolve_cap(target_cap, CapRights::ask()) {
            Ok(id) => id,
            Err(e) => {
                self.finish_failed(flow, e);
                return None;
            },
        };
        let mut flow = flow;
        let stamped = self.authenticate_outgoing_message(ids, flow.id, msg);
        let request_id: u64 = stamped.request_id;
        let hop = Value::Message(stamped);
        let filter = WaitFilter::Correlation {
            expect_request_id: request_id,
            expect_sender: Some(target.0),
        };
        flow.last_receive_dest = Some(dest_reg);
        let ghost t = self@;
        RuntimeMetrics::inc(&mut self.metrics.messages_sent);
        assert(self@ =~= sent_counted(t));
        flow.count_sent();
        match self.deliver(Lane::Local, target, hop.clone()) {
            DeliverStatus::Done => {},
            DeliverStatus::Full(_) => {
                self.park_waiting_send(
                    flow,
                    target,
                    hop,
                    PendingSend::Ask {
                        dest_reg,
                        expect_request_id: request_id,
                        expect_sender: target.0,
                        timeout,
                    },
                );
                return None;
            },
        }
        let ghost u = self@;
        let id = flow.id;
        let mut mailbox = match self.directory.unregister(id) {
            Some(m) => m,
            None => {
                assert(self@ =~= u);
                self.finish_failed(flow, String::from_str("mailbox gone"));
                return None;
            },
        };
        let popped = mailbox.try_pop_filter(filter);
        self.directory.register(id, mailbox);
        assert(self@ =~= u.with_mailbox(id, mailbox@));
        match popped {
            Some(v) => {
                flow.receive_at(dest_reg, v);
                Some(flow)
            },
            None => {
                assert(self@.directory =~= u.directory);
                assert(self@ =~= u);
                self.park_ask(now, flow, dest_reg, timeout, filter, target);
                None
            },
        }
    }

    fn on_monitor(&mut self, flow: Box<Flow>, dest_reg: u8, target_cap: u64) -> (r: Option<Box<Flow>>)
        ensures
            (final(self)@, opt_flow_view(r)) == after_monitor(
                old(self)@,
                (*flow)@,
                dest_reg,
                target_cap,
            ),
    {
        let target = match self.resolve_cap_any(target_cap) {
            Ok(id) => id,
            Err(e) => {
                self.finish_failed(flow, e);
                return None;
            },
        };
        if target.0 == flow.id.0 {
            self.finish_failed(flow, String::from_str("cannot monitor self"));
            return None;
        }
        let mut flow = flow;
        let monitor = self.monitors.create(flow.id, target);
        flow.resume(dest_reg, int_value(monitor.0));
        assert(self@ =~= SharedView {
            monitors: old(self)@.monitors.created(flow.id, target),
            ..old(self)@
        });
        Some(flow)
    }

    fn on_demonitor(&mut self, flow: Box<Flow>, reg: u8) -> (r: Option<Box<Flow>>)
        ensures
            (final(self)@, opt_flow_view(r)) == after_demonitor(old(self)@, (*flow)@, reg),
    {
        let raw: u64 = match reference(&flow, reg) {
            Some(n) => n,
            None => {
                self.finish_failed(flow, String::from_str("demonitor: expected Int ref"));
                return None;
            },
        };
        match self.monitors.remove_owned(flow.id, MonitorRef::from_u64(raw)) {
            Ok(()) => {
                assert(self@ =~= after_demonitor(old(self)@, (*flow)@, reg).0);
                Some(flow)
            },
            Err(e) => {
                proof {
                    super::laws::dropping_nothing(old(self)@.monitors, flow.id, MonitorRef(raw));
                    assert(self@ =~= old(self)@);
                }
                self.finish_failed(flow, e.to_text());
                None
            },
        }
    }

    fn on_link(&mut self, flow: Box<Flow>, dest_reg: u8, target_cap: u64) -> (r: Option<Box<Flow>>)
        ensures
            (final(self)@, opt_flow_view(r)) == after_link(
                old(self)@,
                (*flow)@,
                dest_reg,
                target_cap,
            ),
    {
        let target = match self.resolve_cap_any(target_cap) {
            Ok(id) => id,
            Err(e) => {
                self.finish_failed(flow, e);
                return None;
            },
        };
        if target.0 == flow.id.0 {
            self.finish_failed(flow, String::from_str("cannot link self"));
            return None;
        }
        let mut flow = flow;
        match self.links.link(flow.id, target) {
            Ok(link) => {
                flow.resume(dest_reg, int_value(link.0));
                assert(self@ =~= SharedView {
                    links: old(self)@.links.linked(flow.id, target),
                    ..old(self)@
                });
                Some(flow)
            },
            Err(e) => {
                self.finish_failed(flow, e.to_text());
                None
            },
        }
    }

    fn on_unlink(&mut self, flow: Box<Flow>, reg: u8) -> (r: Option<Box<Flow>>)
        ensures
            (final(self)@, opt_flow_view(r)) == after_unlink(old(self)@, (*flow)@, reg),
    {
        let raw: u64 = match reference(&flow, reg) {
            Some(n) => n,
            None => {
                self.finish_failed(flow, String::from_str("unlink: expected Int id"));
                return None;
            },
        };
        match self.links.unlink_owned(flow.id, LinkId::from_u64(raw)) {
            Ok(()) => {
                assert(self@ =~= after_unlink(old(self)@, (*flow)@, reg).0);
                Some(flow)
            },
            Err(e) => {
                proof {
                    super::laws::unlinking_nothing(old(self)@.links, flow.id, LinkId(raw));
                    assert(self@ =~= old(self)@);
                }
                self.finish_failed(flow, e.to_text());
                None
            },
        }
    }

    fn on_delegate(
        &mut self,
        ids: &mut Ids,
        flow: Box<Flow>,
        dest_reg: u8,
        src_cap: u64,
        want_rights: CapRights,
        want_native_cap: Option<u64>,
    ) -> (r: Option<Box<Flow>>)
        ensures
            (final(self)@, opt_flow_view(r)) == after_delegate(
                old(self)@,
                old(ids)@,
                (*flow)@,
                dest_reg,
                src_cap,
                want_rights,
                want_native_cap,
            ),
            final(ids)@ == after_delegate_ids(
                old(self)@,
                old(ids)@,
                (*flow)@,
                src_cap,
                want_rights,
                want_native_cap,
            ),
    {
        match want_native_cap {
            Some(raw) => match self.resolve_cap_any(raw) {
                Ok(_) => {},
                Err(e) => {
                    self.finish_failed(flow, e);
                    return None;
                },
            },
            None => {},
        }
        let entry = match self.caps.resolve(CapId(src_cap)) {
            Some(e) => e,
            None => {
                self.finish_failed(
                    flow,
                    String::from_str(DelegateError::SourceRevoked.to_text()),
                );
                return None;
            },
        };
        let cell = RevocationCell::new();
        let src = Cap::root(CapTarget::Flow(entry.flow.0), entry.rights, None, &cell);
        let all = NativeMask::new(u64::MAX);
        let mask = match want_native_cap {
            Some(_) => Some(&all),
            None => None,
        };
        match exec_delegate(&src, &cell, want_rights, mask) {
            Ok(narrowed) => self.grant(ids, flow, dest_reg, entry.flow, narrowed.rights),
            Err(e) => {
                self.finish_failed(flow, String::from_str(e.to_text()));
                None
            },
        }
    }

    /// Do what a flow stopped for. The flow comes back if it goes on at once.
    pub fn apply(&mut self, ids: &mut Ids, now: u64, flow: Box<Flow>, result: VmResult) -> (r:
        Option<Box<Flow>>)
        ensures
            (final(self)@, opt_flow_view(r)) == applied(
                old(self)@,
                old(ids)@,
                now,
                (*flow)@,
                result@,
            ),
            final(ids)@ == applied_ids(old(self)@, old(ids)@, (*flow)@, result@),
    {
        let mut flow = flow;
        flow.metrics.instructions = flow.vm.instructions_executed();
        match result {
            VmResult::Complete(value) => {
                self.finish_ok(flow, value);
                None
            },
            VmResult::Trap(fault) => {
                self.finish_failed(flow, fault.to_text());
                None
            },
            VmResult::Yield => {
                self.on_yield(flow);
                None
            },
            VmResult::Sleep(delay) => {
                let ghost f = (*flow)@;
                self.timer.schedule_sleep(now, delay, flow);
                assert(self@ =~= SharedView {
                    timer: old(self)@.timer.slept(now, delay, f),
                    ..old(self)@
                });
                None
            },
            VmResult::SelfPid { dest_reg } => {
                let id = flow.id;
                self.grant(ids, flow, dest_reg, id, CapRights::send_ask())
            },
            VmResult::Spawn { function, args, dest_reg, requested_rights } => self.on_spawn(
                ids,
                flow,
                function,
                args.as_slice(),
                dest_reg,
                requested_rights,
            ),
            VmResult::Send { target_cap, message } => self.on_send(ids, flow, target_cap, message),
            VmResult::Receive { dest_reg, timeout, match_tag } => self.on_receive(
                now,
                flow,
                dest_reg,
                timeout,
                match_tag,
            ),
            VmResult::Ask { dest_reg, target_cap, request, timeout } => self.on_ask(
                ids,
                now,
                flow,
                dest_reg,
                target_cap,
                request,
                timeout,
            ),
            VmResult::Monitor { dest_reg, target_cap } => self.on_monitor(
                flow,
                dest_reg,
                target_cap,
            ),
            VmResult::Demonitor { monitor_reg } => self.on_demonitor(flow, monitor_reg),
            VmResult::Link { dest_reg, target_cap } => self.on_link(flow, dest_reg, target_cap),
            VmResult::Unlink { link_reg } => self.on_unlink(flow, link_reg),
            VmResult::Delegate { dest_reg, src_cap, want_rights, want_native_cap } =>
                self.on_delegate(ids, flow, dest_reg, src_cap, want_rights, want_native_cap),
            VmResult::Native { native, args, dest_reg } => {
                self.finish_failed(flow, String::from_str("host request without an answer"));
                None
            },
            VmResult::Float { op, lhs, rhs, dest_reg } => {
                self.finish_failed(flow, String::from_str("host request without an answer"));
                None
            },
        }
    }
}

} // verus!
