//! What a mailbox does when it is full.

use vstd::prelude::*;

use super::capacity::{MailboxBytes, MailboxCapacity};

verus! {

/// What happens to a message that does not fit. None of the choices blocks the
/// worker.
#[derive(Clone, Copy, Debug, PartialEq, Eq, Structural)]
pub enum OverflowPolicy {
    /// It is refused, and the sender is told.
    Reject,
    /// It is discarded.
    DropNewest,
    /// The oldest messages make room for it.
    DropOldest,
}

impl Default for OverflowPolicy {
    fn default() -> (p: OverflowPolicy)
        ensures
            p == OverflowPolicy::Reject,
    {
        OverflowPolicy::Reject
    }
}

/// Bounds and overflow policy of a mailbox. Both bounds apply.
#[derive(Clone, Copy, Debug, PartialEq, Eq, Structural)]
pub struct MailboxConfig {
    capacity: MailboxCapacity,
    bytes: MailboxBytes,
    overflow: OverflowPolicy,
}

impl MailboxConfig {
    pub closed spec fn spec_capacity(self) -> MailboxCapacity {
        self.capacity
    }

    pub closed spec fn spec_bytes(self) -> MailboxBytes {
        self.bytes
    }

    pub closed spec fn spec_overflow(self) -> OverflowPolicy {
        self.overflow
    }

    /// The given capacity and policy, with the default byte budget.
    pub fn new(capacity: MailboxCapacity, overflow: OverflowPolicy) -> (c: MailboxConfig)
        ensures
            c.spec_capacity() == capacity,
            c.spec_bytes().budget() == 0x40_0000,
            c.spec_overflow() == overflow,
    {
        MailboxConfig { capacity, bytes: MailboxBytes::default(), overflow }
    }

    /// The same with another byte budget.
    pub fn with_bytes(self, bytes: MailboxBytes) -> (c: MailboxConfig)
        ensures
            c.spec_capacity() == self.spec_capacity(),
            c.spec_bytes() == bytes,
            c.spec_overflow() == self.spec_overflow(),
    {
        MailboxConfig { capacity: self.capacity, bytes, overflow: self.overflow }
    }

    pub fn capacity(&self) -> (c: MailboxCapacity)
        ensures
            c == self.spec_capacity(),
    {
        self.capacity
    }

    pub fn bytes(&self) -> (b: MailboxBytes)
        ensures
            b == self.spec_bytes(),
    {
        self.bytes
    }

    pub fn overflow(&self) -> (p: OverflowPolicy)
        ensures
            p == self.spec_overflow(),
    {
        self.overflow
    }
}

impl Default for MailboxConfig {
    fn default() -> (c: MailboxConfig)
        ensures
            c.spec_capacity().hops() == 256,
            c.spec_bytes().budget() == 0x40_0000,
            c.spec_overflow() == OverflowPolicy::Reject,
    {
        MailboxConfig {
            capacity: MailboxCapacity::default(),
            bytes: MailboxBytes::default(),
            overflow: OverflowPolicy::Reject,
        }
    }
}

} // verus!
