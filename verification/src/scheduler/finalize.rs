//! The one place where flows end.
//!
//! Flows that have to end with another one go on a work list instead of being
//! ended recursively, so that a wide web of links takes no stack.

use vstd::prelude::*;

use super::mailbox::{Delivery, MailboxView};
use super::metrics::RuntimeMetrics;
use super::model::{
    all_finalized, announced, down_delivered, downs_delivered, extracted, finalizing_shrinks,
    finished, forgotten, kill_requested, links_collected, links_cut, mailbox_closed,
    monitors_told, one_finalized, orphan_woken, orphans_released, orphans_woken, sends_dropped,
    stranded, unmarked, Lane, PendingView, SharedView,
};
use super::monitor::{DownEvent, FlowExitReason};
use super::process::{opt_flow_view, Flow, FlowId, FlowOutcome};
use super::shared::{pending_view, Ending, PendingExit, Shared};
use crate::bytecode::value::{Message, Value};

verus! {

impl Shared {
    /// Clear the flow's own marks.
    fn unmark(&mut self, id: FlowId)
        ensures
            final(self)@ == unmarked(old(self)@, id),
    {
        let _ = self.kill_signals.take(id);
        let _ = self.waiting_send_at.remove(id);
        let _ = self.ask_waits.remove_asker(id);
        assert(self@ =~= unmarked(old(self)@, id));
    }

    /// Close the mailbox; the senders that waited for room in it go on the
    /// work list.
    fn close_mailbox(&mut self, id: FlowId, work: &mut Vec<PendingExit>)
        ensures
            final(self)@ == mailbox_closed(old(self)@, id).0,
            pending_view(final(work)@) == pending_view(old(work)@) + mailbox_closed(
                old(self)@,
                id,
            ).1,
    {
        let ghost s = self@;
        let mut mailbox = match self.directory.unregister(id) {
            Some(m) => m,
            None => {
                assert(self@ =~= s);
                assert(pending_view(work@) =~= pending_view(old(work)@) + mailbox_closed(s, id).1);
                return;
            },
        };
        let ghost m = mailbox@;
        let mut senders = mailbox.close();
        self.directory.register(id, mailbox);
        let ghost waiting = m.waiting;
        let ghost all = senders@;
        proof {
            assert(self@.directory =~= s.directory.insert(
                id.0,
                MailboxView { closed: true, waiting: Seq::empty(), ..m },
            ));
        }
        let ghost t = self@;
        let ghost total = all.len();
        assert(waiting.len() == total);
        while senders.len() > 0
            invariant
                total == all.len(),
                waiting.len() == total,
                waiting == super::mailbox::waiting_view(all),
                senders@.len() <= total,
                senders@ == all.skip(total - senders@.len()),
                self@ == (SharedView {
                    waiting_send: sends_dropped(
                        s.waiting_send,
                        waiting,
                        (total - senders@.len()) as nat,
                    ),
                    ..t
                }),
                t.waiting_send == s.waiting_send,
                pending_view(work@) == pending_view(old(work)@) + stranded(waiting, id).take(
                    total - senders@.len(),
                ),
            decreases senders@.len(),
        {
            let ghost at = total - senders@.len();
            let ghost before = work@;
            assert(senders@[0] == all[at as int]);
            assert(waiting[at as int] == ((*all[at as int].0)@, all[at as int].1));
            let (sender, _) = senders.remove(0);
            let _ = self.waiting_send_at.remove(sender.id);
            let mut text = String::from_str("send target ");
            text.append(id.to_text().as_str());
            text.append(" exited");
            let pending = PendingExit {
                flow: sender,
                outcome: FlowOutcome::Failed(text),
                reason: FlowExitReason::Fault,
            };
            work.push(pending);
            proof {
                assert(senders@ =~= all.skip(at + 1));
                assert(pending_view(work@) =~= pending_view(before).push(pending@));
                assert(stranded(waiting, id)[at as int] == pending@);
                assert(stranded(waiting, id).take(at + 1) =~= stranded(waiting, id).take(
                    at as int,
                ).push(pending@));
                assert(pending_view(work@) =~= pending_view(old(work)@) + stranded(
                    waiting,
                    id,
                ).take(at + 1));
            }
        }
        proof {
            assert(stranded(waiting, id).take(total as int) =~= stranded(waiting, id));
            assert(self@ =~= mailbox_closed(s, id).0);
        }
    }

    /// Resume one flow that waited for the reply of a flow that ended.
    fn wake_orphaned_ask(&mut self, asker: FlowId, hop: Value)
        ensures
            final(self)@ == orphan_woken(old(self)@, asker, hop),
    {
        let ghost s = self@;
        let mut mailbox = match self.directory.unregister(asker) {
            Some(m) => m,
            None => {
                assert(self@ =~= s);
                return;
            },
        };
        let parked = mailbox.take_parked();
        self.directory.register(asker, mailbox);
        assert(self@ =~= s.with_mailbox(asker, mailbox@));
        match parked {
            Some(f) => {
                let mut flow = f;
                flow.receive(hop);
                self.make_ready(Lane::Global, flow);
            },
            None => {},
        }
    }

    /// Resume all who wait for the reply of `target`, which ended.
    fn wake_orphaned_asks(&mut self, target: FlowId, reason: FlowExitReason)
        ensures
            final(self)@ == orphans_released(old(self)@, target, reason),
    {
        let waiters = self.ask_waits.take_waiters_of(target);
        let hop = Value::Message(Message::linked_exit(target.0, reason.as_u64()));
        let ghost s = self@;
        assert(s =~= SharedView { asks: old(self)@.asks.released(target.0), ..old(self)@ });
        let mut i: usize = 0;
        while i < waiters.len()
            invariant
                i <= waiters@.len(),
                self@ == orphans_woken(s, waiters@, hop, i as nat),
            decreases waiters@.len() - i,
        {
            self.wake_orphaned_ask(FlowId(waiters[i]), hop.clone());
            i = i + 1;
        }
    }

    /// Sweep the tables.
    fn forget(&mut self, id: FlowId)
        ensures
            final(self)@ == forgotten(old(self)@, id),
    {
        self.caps.revoke_target(id);
        let _ = self.directory.unregister(id);
        self.monitors.remove_owned_by(id);
        self.registry.unregister_flow(id);
        assert(self@ =~= forgotten(old(self)@, id));
    }

    /// Tell a monitor's owner that the target ended.
    pub fn deliver_down(&mut self, event: DownEvent)
        ensures
            final(self)@ == down_delivered(old(self)@, event),
    {
        let ghost s = self@;
        let hop = Value::Message(
            Message::down(event.monitor.0, event.target.0, event.reason.as_u64()),
        );
        let mut mailbox = match self.directory.unregister(event.owner) {
            Some(m) => m,
            None => {
                assert(self@ =~= s);
                return;
            },
        };
        let delivery = mailbox.push_system(hop.clone());
        self.directory.register(event.owner, mailbox);
        assert(self@ =~= s.with_mailbox(event.owner, mailbox@));
        match delivery {
            Delivery::Handoff(f) => {
                let mut owner = f;
                let _ = self.ask_waits.remove_asker(owner.id);
                owner.receive(hop);
                self.make_ready(Lane::Global, owner);
                assert(self@ =~= down_delivered(s, event));
            },
            _ => {},
        }
    }

    /// The monitors of a flow report its end.
    fn tell_monitors(&mut self, id: FlowId, reason: FlowExitReason)
        ensures
            final(self)@ == monitors_told(old(self)@, id, reason),
    {
        let events = self.monitors.notify_target_exit(id, reason);
        let ghost s = self@;
        assert(s =~= SharedView { monitors: old(self)@.monitors.without_target(id), ..old(self)@ });
        let mut i: usize = 0;
        while i < events.len()
            invariant
                i <= events@.len(),
                self@ == downs_delivered(s, events@, i as nat),
            decreases events@.len() - i,
        {
            self.deliver_down(events[i]);
            i = i + 1;
        }
    }

    /// Mark a flow to be killed, and take it out of where it waits. A flow
    /// that does not wait keeps running and ends when it next gets a worker.
    pub fn extract_for_kill(&mut self, id: FlowId, reason: FlowExitReason) -> (r: Option<Box<Flow>>)
        ensures
            (final(self)@, opt_flow_view(r)) == extracted(old(self)@, id, reason),
    {
        let ghost s = self@;
        let mut mailbox = match self.directory.unregister(id) {
            Some(m) => m,
            None => {
                assert(self@ =~= s);
                return None;
            },
        };
        self.kill_signals.set(id, reason);
        let parked = mailbox.take_parked();
        self.directory.register(id, mailbox);
        let ghost t = SharedView { kills: s.kills.insert(id.0, reason), ..s }.with_mailbox(
            id,
            s.directory[id.0].unparked(),
        );
        assert(self@ =~= t);
        match parked {
            Some(f) => return Some(f),
            None => {},
        }
        let target = match self.waiting_send_at.get(id) {
            Some(f) => f,
            None => return None,
        };
        let mut full = match self.directory.unregister(target) {
            Some(m) => m,
            None => {
                assert(self@ =~= t);
                return None;
            },
        };
        let ghost b = full@;
        let sender = full.take_waiting_sender(id);
        self.directory.register(target, full);
        match sender {
            Some(f) => {
                let _ = self.waiting_send_at.remove(id);
                assert(self@ =~= extracted(s, id, reason).0);
                Some(f)
            },
            None => {
                assert(self@.directory =~= t.directory);
                assert(self@ =~= t);
                None
            },
        }
    }

    /// End a flow that is linked to one that ended abnormally.
    fn collect_link_exit(&mut self, peer: FlowId, work: &mut Vec<PendingExit>)
        ensures
            final(self)@ == extracted(old(self)@, peer, FlowExitReason::Link).0,
            pending_view(final(work)@) == (match extracted(
                old(self)@,
                peer,
                FlowExitReason::Link,
            ).1 {
                Some(flow) => pending_view(old(work)@).push(
                    PendingView {
                        flow,
                        outcome: super::process::OutcomeView::Failed("linked exit (link)"@),
                        reason: FlowExitReason::Link,
                    },
                ),
                None => pending_view(old(work)@),
            }),
    {
        match self.extract_for_kill(peer, FlowExitReason::Link) {
            Some(flow) => {
                let pending = PendingExit {
                    flow,
                    outcome: FlowOutcome::Failed(String::from_str("linked exit (link)")),
                    reason: FlowExitReason::Link,
                };
                work.push(pending);
                assert(pending_view(work@) =~= pending_view(old(work)@).push(pending@));
            },
            None => {},
        }
    }

    /// Drop the flow's links; if it ended abnormally, its peers go on the work
    /// list.
    fn cut_links(&mut self, id: FlowId, reason: FlowExitReason, work: &mut Vec<PendingExit>)
        ensures
            final(self)@ == links_cut(old(self)@, id, reason).0,
            pending_view(final(work)@) == pending_view(old(work)@) + links_cut(
                old(self)@,
                id,
                reason,
            ).1,
    {
        let peers = self.links.remove_links_of(id);
        let ghost s = self@;
        assert(s =~= SharedView { links: old(self)@.links.without(id), ..old(self)@ });
        if !reason.is_abnormal() {
            assert(pending_view(work@) =~= pending_view(old(work)@) + Seq::empty());
            return;
        }
        let mut i: usize = 0;
        assert(pending_view(work@) =~= pending_view(old(work)@) + links_collected(s, peers@, 0).1);
        while i < peers.len()
            invariant
                i <= peers@.len(),
                self@ == links_collected(s, peers@, i as nat).0,
                pending_view(work@) == pending_view(old(work)@) + links_collected(
                    s,
                    peers@,
                    i as nat,
                ).1,
            decreases peers@.len() - i,
        {
            self.collect_link_exit(peers[i].1, work);
            i = i + 1;
            assert(pending_view(work@) =~= pending_view(old(work)@) + links_collected(
                s,
                peers@,
                i as nat,
            ).1);
        }
    }

    /// Count the outcome and announce it.
    fn announce(&mut self, pending: PendingExit)
        ensures
            final(self)@ == announced(old(self)@, pending@),
    {
        match &pending.outcome {
            FlowOutcome::Completed(_) => RuntimeMetrics::inc(&mut self.metrics.processes_completed),
            FlowOutcome::Failed(_) => RuntimeMetrics::inc(&mut self.metrics.processes_failed),
        }
        let ghost before = self.endings@;
        let ending = Ending {
            id: pending.flow.id,
            outcome: pending.outcome,
            supervisor: pending.flow.supervisor,
        };
        self.endings.push(ending);
        assert(self@ =~= announced(old(self)@, pending@));
    }

    /// End one flow: nothing speaks of it afterwards, everyone who has to know
    /// is told, and the flows that have to end with it go on the work list.
    pub fn finalize_one(&mut self, pending: PendingExit, work: &mut Vec<PendingExit>)
        ensures
            final(self)@ == one_finalized(old(self)@, pending@).0,
            pending_view(final(work)@) == pending_view(old(work)@) + one_finalized(
                old(self)@,
                pending@,
            ).1,
    {
        let id = pending.flow.id;
        let reason = pending.reason;
        let ghost w = pending_view(work@);
        self.unmark(id);
        let ghost s = self@;
        self.close_mailbox(id, work);
        let ghost senders = mailbox_closed(s, id).1;
        self.wake_orphaned_asks(id, reason);
        self.forget(id);
        self.tell_monitors(id, reason);
        let ghost t = self@;
        self.cut_links(id, reason, work);
        let ghost peers = links_cut(t, id, reason).1;
        self.announce(pending);
        assert(w + senders + peers =~= w + (senders + peers));
    }

    /// End a flow, and all that have to end with it.
    pub fn finalize_flow(&mut self, flow: Box<Flow>, outcome: FlowOutcome, reason: FlowExitReason)
        ensures
            final(self)@ == finished(old(self)@, (*flow)@, outcome@, reason),
    {
        let mut work: Vec<PendingExit> = Vec::new();
        work.push(PendingExit { flow, outcome, reason });
        let ghost goal = finished(old(self)@, (*flow)@, outcome@, reason);
        assert(pending_view(work@) =~= seq![
            PendingView { flow: (*flow)@, outcome: outcome@, reason },
        ]);
        proof {
            self.directory.is_finite();
        }
        while work.len() > 0
            invariant
                self@.directory.dom().finite(),
                all_finalized(self@, pending_view(work@)) == goal,
            decreases self@.directory.dom().len(), self@.links.entries.len(), work@.len(),
        {
            let ghost s = self@;
            let ghost before = work@;
            match work.pop() {
                Some(pending) => {
                    proof {
                        assert(pending_view(before).last() == pending@);
                        assert(pending_view(before).drop_last() =~= pending_view(work@));
                        finalizing_shrinks(s, pending@);
                    }
                    self.finalize_one(pending, &mut work);
                },
                None => {},
            }
        }
        assert(pending_view(work@) =~= Seq::empty());
    }

    /// Kill a flow: at once if it waits, else when it next gets a worker.
    pub fn request_kill(&mut self, id: FlowId, reason: FlowExitReason)
        ensures
            final(self)@ == kill_requested(old(self)@, id, reason),
    {
        match self.extract_for_kill(id, reason) {
            Some(flow) => {
                let mut text = String::from_str("killed (");
                text.append(reason.to_text());
                text.append(")");
                self.finalize_flow(flow, FlowOutcome::Failed(text), reason);
            },
            None => {},
        }
    }
}

} // verus!
