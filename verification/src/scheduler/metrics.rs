//! Counters of the runtime.

use vstd::prelude::*;

use crate::text::{dec, push_dec};

verus! {

/// Counters since the runtime started.
#[derive(Clone, Copy, Debug, PartialEq, Eq, Structural)]
pub struct RuntimeMetrics {
    pub processes_spawned: u64,
    pub processes_completed: u64,
    pub processes_failed: u64,
    pub messages_sent: u64,
    pub steals: u64,
    pub reschedules: u64,
}

impl Default for RuntimeMetrics {
    fn default() -> (m: RuntimeMetrics)
        ensures
            m == RuntimeMetrics::zero(),
    {
        RuntimeMetrics {
            processes_spawned: 0,
            processes_completed: 0,
            processes_failed: 0,
            messages_sent: 0,
            steals: 0,
            reschedules: 0,
        }
    }
}

impl RuntimeMetrics {
    pub open spec fn zero() -> RuntimeMetrics {
        RuntimeMetrics {
            processes_spawned: 0,
            processes_completed: 0,
            processes_failed: 0,
            messages_sent: 0,
            steals: 0,
            reschedules: 0,
        }
    }

    /// Count one more, wrapping at the counter's width.
    pub fn inc(counter: &mut u64)
        ensures
            *final(counter) == old(counter).wrapping_add(1),
    {
        *counter = counter.wrapping_add(1);
    }

    pub fn snapshot(&self) -> (s: RuntimeMetricsSnapshot)
        ensures
            s == (RuntimeMetricsSnapshot {
                processes_spawned: self.processes_spawned,
                processes_completed: self.processes_completed,
                processes_failed: self.processes_failed,
                messages_sent: self.messages_sent,
                steals: self.steals,
                reschedules: self.reschedules,
            }),
    {
        RuntimeMetricsSnapshot {
            processes_spawned: self.processes_spawned,
            processes_completed: self.processes_completed,
            processes_failed: self.processes_failed,
            messages_sent: self.messages_sent,
            steals: self.steals,
            reschedules: self.reschedules,
        }
    }
}

/// The counters at one point in time.
#[derive(Clone, Copy, Debug, PartialEq, Eq, Structural)]
pub struct RuntimeMetricsSnapshot {
    pub processes_spawned: u64,
    pub processes_completed: u64,
    pub processes_failed: u64,
    pub messages_sent: u64,
    pub steals: u64,
    pub reschedules: u64,
}

impl RuntimeMetricsSnapshot {
    pub open spec fn spec_text(self) -> Seq<char> {
        "spawned="@ + dec(self.processes_spawned as nat) + " completed="@ + dec(
            self.processes_completed as nat,
        ) + " failed="@ + dec(self.processes_failed as nat) + " messages="@ + dec(
            self.messages_sent as nat,
        ) + " steals="@ + dec(self.steals as nat) + " reschedules="@ + dec(self.reschedules as nat)
    }

    pub fn to_text(&self) -> (s: String)
        ensures
            s@ == self.spec_text(),
    {
        let mut s = String::from_str("spawned=");
        push_dec(&mut s, self.processes_spawned);
        s.append(" completed=");
        push_dec(&mut s, self.processes_completed);
        s.append(" failed=");
        push_dec(&mut s, self.processes_failed);
        s.append(" messages=");
        push_dec(&mut s, self.messages_sent);
        s.append(" steals=");
        push_dec(&mut s, self.steals);
        s.append(" reschedules=");
        push_dec(&mut s, self.reschedules);
        s
    }
}

} // verus!
