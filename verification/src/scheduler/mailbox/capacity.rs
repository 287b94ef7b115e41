//! Bounds of a mailbox.

use vstd::prelude::*;

verus! {

/// How many messages a mailbox holds: at least one, at most 2^20.
#[derive(Clone, Copy, Debug, PartialEq, Eq, PartialOrd, Ord, Hash, Structural)]
pub struct MailboxCapacity(u32);

impl MailboxCapacity {
    pub const MIN: u32 = 1;

    pub const MAX: u32 = 0x10_0000;

    pub closed spec fn hops(self) -> u32 {
        self.0
    }

    /// `None` for a value out of range.
    pub fn new(value: u32) -> (r: Option<MailboxCapacity>)
        ensures
            r is Some <==> MailboxCapacity::MIN <= value <= MailboxCapacity::MAX,
            r matches Some(c) ==> c.hops() == value,
    {
        if value < MailboxCapacity::MIN || value > MailboxCapacity::MAX {
            None
        } else {
            Some(MailboxCapacity(value))
        }
    }

    pub fn get(self) -> (n: usize)
        ensures
            n == self.hops(),
    {
        self.0 as usize
    }

    pub fn get_u32(self) -> (n: u32)
        ensures
            n == self.hops(),
    {
        self.0
    }
}

impl Default for MailboxCapacity {
    fn default() -> (c: MailboxCapacity)
        ensures
            c.hops() == 256,
    {
        MailboxCapacity(256)
    }
}

/// How many bytes the messages in a mailbox may be charged: at least 1 KiB, at
/// most 1 GiB. A count of messages alone bounds no memory, since a message may
/// carry a payload of any size.
#[derive(Clone, Copy, Debug, PartialEq, Eq, PartialOrd, Ord, Hash, Structural)]
pub struct MailboxBytes(usize);

impl MailboxBytes {
    pub const MIN: usize = 0x400;

    pub const MAX: usize = 0x4000_0000;

    pub closed spec fn budget(self) -> usize {
        self.0
    }

    /// `None` for a value out of range.
    pub fn new(value: usize) -> (r: Option<MailboxBytes>)
        ensures
            r is Some <==> MailboxBytes::MIN <= value <= MailboxBytes::MAX,
            r matches Some(b) ==> b.budget() == value,
    {
        if value < MailboxBytes::MIN || value > MailboxBytes::MAX {
            None
        } else {
            Some(MailboxBytes(value))
        }
    }

    pub fn get(self) -> (n: usize)
        ensures
            n == self.budget(),
    {
        self.0
    }
}

impl Default for MailboxBytes {
    fn default() -> (b: MailboxBytes)
        ensures
            b.budget() == 0x40_0000,
    {
        MailboxBytes(0x40_0000)
    }
}

} // verus!
