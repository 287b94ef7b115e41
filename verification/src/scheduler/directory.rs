//! The mailboxes of the live flows.

use std::collections::HashMap;

use vstd::prelude::*;

use super::mailbox::{Mailbox, MailboxView};
use super::process::FlowId;

verus! {

broadcast use vstd::std_specs::hash::group_hash_axioms;

/// The mailbox of each live flow. A flow is in it from its start to its end.
#[derive(Debug)]
pub struct Directory {
    mailboxes: HashMap<u64, Mailbox>,
}

pub open spec fn mailboxes_view(m: Map<u64, Mailbox>) -> Map<u64, MailboxView> {
    m.map_values(|b: Mailbox| b@)
}

impl View for Directory {
    type V = Map<u64, MailboxView>;

    closed spec fn view(&self) -> Map<u64, MailboxView> {
        mailboxes_view(self.mailboxes@)
    }
}

impl Directory {
    pub fn new() -> (d: Directory)
        ensures
            d@ == Map::<u64, MailboxView>::empty(),
    {
        let d = Directory { mailboxes: HashMap::new() };
        assert(d@ =~= Map::<u64, MailboxView>::empty());
        d
    }

    pub fn register(&mut self, id: FlowId, mailbox: Mailbox)
        ensures
            final(self)@ == old(self)@.insert(id.0, mailbox@),
    {
        self.mailboxes.insert(id.0, mailbox);
        assert(self@ =~= old(self)@.insert(id.0, mailbox@));
    }

    /// Take a flow's mailbox out.
    pub fn unregister(&mut self, id: FlowId) -> (r: Option<Mailbox>)
        ensures
            final(self)@ == old(self)@.remove(id.0),
            r is Some <==> old(self)@.dom().contains(id.0),
            r matches Some(m) ==> m@ == old(self)@[id.0],
    {
        let r = self.mailboxes.remove(&id.0);
        assert(self@ =~= old(self)@.remove(id.0));
        r
    }

    pub fn lookup(&self, id: FlowId) -> (r: Option<&Mailbox>)
        ensures
            r is Some <==> self@.dom().contains(id.0),
            r matches Some(m) ==> m@ == self@[id.0],
    {
        self.mailboxes.get(&id.0)
    }

    /// Whether the flow is alive.
    pub fn contains(&self, id: FlowId) -> (r: bool)
        ensures
            r == self@.dom().contains(id.0),
    {
        self.mailboxes.contains_key(&id.0)
    }

    /// Number of live flows.
    pub fn len(&self) -> (n: usize)
        ensures
            n == self@.dom().len(),
    {
        assert(self@.dom() =~= self.mailboxes@.dom());
        self.mailboxes.len()
    }

    /// There are only so many live flows.
    pub proof fn is_finite(&self)
        ensures
            self@.dom().finite(),
    {
        let keys = self.mailboxes.keys();
        let s = vstd::std_specs::iter::IteratorSpec::remaining(&keys).unref();
        assert(s.to_set() == self.mailboxes@.dom());
        vstd::seq_lib::seq_to_set_is_finite(s);
        assert(self@.dom() =~= self.mailboxes@.dom());
    }
}

impl Default for Directory {
    fn default() -> (d: Directory)
        ensures
            d@ == Map::<u64, MailboxView>::empty(),
    {
        Directory::new()
    }
}

} // verus!
