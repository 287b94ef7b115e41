//! Counters of a mailbox.

use vstd::prelude::*;

verus! {

/// Counters of one mailbox, and how full it is.
#[derive(Clone, Copy, Debug, PartialEq, Eq, Structural)]
pub struct MailboxStats {
    pub enqueued: u64,
    pub dequeued: u64,
    /// Refusals, whichever bound was met.
    pub rejected: u64,
    /// Refusals because of the byte budget.
    pub rejected_byte_limit: u64,
    pub dropped_newest: u64,
    pub dropped_oldest: u64,
    /// Messages in the mailbox now.
    pub queued_messages: usize,
    /// What the messages in the mailbox are charged now.
    pub queued_bytes: usize,
}

/// One more, up to the largest count.
pub open spec fn one_more(n: u64) -> u64 {
    if n < u64::MAX {
        (n + 1) as u64
    } else {
        n
    }
}

impl MailboxStats {
    pub open spec fn zero() -> MailboxStats {
        MailboxStats {
            enqueued: 0,
            dequeued: 0,
            rejected: 0,
            rejected_byte_limit: 0,
            dropped_newest: 0,
            dropped_oldest: 0,
            queued_messages: 0,
            queued_bytes: 0,
        }
    }
}

impl Default for MailboxStats {
    fn default() -> (s: MailboxStats)
        ensures
            s == MailboxStats::zero(),
    {
        MailboxStats {
            enqueued: 0,
            dequeued: 0,
            rejected: 0,
            rejected_byte_limit: 0,
            dropped_newest: 0,
            dropped_oldest: 0,
            queued_messages: 0,
            queued_bytes: 0,
        }
    }
}

} // verus!
