//! Handing one value from a producer to a consumer.

use vstd::prelude::*;

use super::error::RuntimeError;

verus! {

/// Where a value is on its way. A value is present or was collected, never
/// both; what was abandoned has no value.
#[derive(Debug)]
pub enum Slot<T> {
    /// No value yet, but one may come.
    Pending,
    Ready(T),
    /// The producer is gone, and no value will come.
    Abandoned,
    /// The value was handed out.
    Taken,
}

/// The state of a wait with a limit.
#[derive(Debug)]
pub enum JoinState<T> {
    Ready(T),
    /// Not yet; the wait can be repeated.
    Pending,
}

/// What a consumer that waits until a deadline does next.
#[derive(Debug)]
pub enum WaitStep<T> {
    Done(Result<JoinState<T>, RuntimeError>),
    /// Sleep for at most this many milliseconds, then look again.
    Sleep(u64),
}

/// The state after one look: a value that was there is gone.
pub open spec fn after_collect<T>(slot: Slot<T>) -> Slot<T> {
    match slot {
        Slot::Ready(_) => Slot::Taken,
        other => other,
    }
}

/// What one look finds; `None` only while a value may still come.
pub open spec fn collected<T>(slot: Slot<T>) -> Option<Result<T, RuntimeError>> {
    match slot {
        Slot::Pending => None,
        Slot::Ready(v) => Some(Ok(v)),
        Slot::Abandoned => Some(Err(RuntimeError::Abandoned("oneshot"))),
        Slot::Taken => Some(Err(RuntimeError::AlreadyCollected("oneshot"))),
    }
}

/// Look without waiting.
pub fn collect<T>(slot: &mut Slot<T>) -> (r: Option<Result<T, RuntimeError>>)
    ensures
        r == collected(*old(slot)),
        *final(slot) == after_collect(*old(slot)),
{
    let mut seen: Slot<T> = Slot::Taken;
    std::mem::swap(&mut seen, slot);
    match seen {
        Slot::Ready(v) => Some(Ok(v)),
        Slot::Pending => {
            *slot = Slot::Pending;
            None
        },
        Slot::Abandoned => {
            *slot = Slot::Abandoned;
            Some(Err(RuntimeError::Abandoned("oneshot")))
        },
        Slot::Taken => Some(Err(RuntimeError::AlreadyCollected("oneshot"))),
    }
}

/// A look as a wait that may be repeated.
pub open spec fn joined<T>(slot: Slot<T>) -> Result<JoinState<T>, RuntimeError> {
    match collected(slot) {
        None => Ok(JoinState::Pending),
        Some(Ok(v)) => Ok(JoinState::Ready(v)),
        Some(Err(e)) => Err(e),
    }
}

impl<T> Slot<T> {
    pub fn new() -> (s: Slot<T>)
        ensures
            s == Slot::<T>::Pending,
    {
        Slot::Pending
    }

    /// Deliver the value.
    pub fn send(&mut self, value: T)
        requires
            *old(self) is Pending,
        ensures
            *final(self) == Slot::Ready(value),
    {
        *self = Slot::Ready(value);
    }

    /// The producer is gone. A value that was delivered stays.
    pub fn disconnect(&mut self)
        ensures
            *final(self) == (match *old(self) {
                Slot::Pending => Slot::Abandoned,
                other => other,
            }),
    {
        match self {
            Slot::Pending => {
                *self = Slot::Abandoned;
            },
            _ => {},
        }
    }

    /// The value if it is there.
    pub fn try_join(&mut self) -> (r: Result<JoinState<T>, RuntimeError>)
        ensures
            r == joined(*old(self)),
            *final(self) == after_collect(*old(self)),
    {
        match collect(self) {
            None => Ok(JoinState::Pending),
            Some(Ok(v)) => Ok(JoinState::Ready(v)),
            Some(Err(e)) => Err(e),
        }
    }

    /// One turn of a wait until `deadline`. What is in the slot outranks the
    /// deadline; the sleep never reaches beyond it, however often it is cut
    /// short.
    pub fn join_deadline(&mut self, now: u64, deadline: u64) -> (r: WaitStep<T>)
        ensures
            *final(self) == after_collect(*old(self)),
            r == (match collected(*old(self)) {
                Some(Ok(v)) => WaitStep::Done(Ok(JoinState::Ready(v))),
                Some(Err(e)) => WaitStep::Done(Err(e)),
                None => if now >= deadline {
                    WaitStep::Done(Ok(JoinState::Pending))
                } else {
                    WaitStep::Sleep((deadline - now) as u64)
                },
            }),
    {
        match collect(self) {
            Some(Ok(v)) => WaitStep::Done(Ok(JoinState::Ready(v))),
            Some(Err(e)) => WaitStep::Done(Err(e)),
            None => {
                if now >= deadline {
                    WaitStep::Done(Ok(JoinState::Pending))
                } else {
                    WaitStep::Sleep(deadline - now)
                }
            },
        }
    }
}

/// The deadline of a wait that starts at `now`; `None` for one that never ends.
pub fn join_timeout(now: u64, timeout: u64) -> (r: Option<u64>)
    ensures
        r == (if now + timeout <= u64::MAX {
            Some((now + timeout) as u64)
        } else {
            None
        }),
{
    now.checked_add(timeout)
}

/// A value is handed out once: the look after the one that got it gets an
/// error, and so does every later one.
pub proof fn value_is_handed_out_once<T>(slot: Slot<T>)
    ensures
        collected(slot) matches Some(Ok(_)) ==> collected(after_collect(slot)) == Some(
            Err::<T, RuntimeError>(RuntimeError::AlreadyCollected("oneshot")),
        ),
        !(collected(slot) matches Some(Ok(_))) ==> after_collect(slot) == slot,
        after_collect(after_collect(slot)) == after_collect(slot),
{
}

/// A value that is there is handed out as it is and is then gone; nothing is
/// handed out while it may still come; and a slot whose value will not come, or
/// was handed out before, says so.
pub proof fn slots_hand_out_what_they_hold<T>(v: T)
    ensures
        collected(Slot::Ready(v)) == Some(Ok::<T, RuntimeError>(v)),
        after_collect(Slot::Ready(v)) == Slot::<T>::Taken,
        joined(Slot::Ready(v)) == Ok::<JoinState<T>, RuntimeError>(JoinState::Ready(v)),
        collected(Slot::<T>::Pending) is None,
        after_collect(Slot::<T>::Pending) == Slot::<T>::Pending,
        joined(Slot::<T>::Pending) == Ok::<JoinState<T>, RuntimeError>(JoinState::Pending),
        joined(Slot::<T>::Abandoned) == Err::<JoinState<T>, RuntimeError>(
            RuntimeError::Abandoned("oneshot"),
        ),
        after_collect(Slot::<T>::Abandoned) == Slot::<T>::Abandoned,
        joined(Slot::<T>::Taken) == Err::<JoinState<T>, RuntimeError>(
            RuntimeError::AlreadyCollected("oneshot"),
        ),
        after_collect(Slot::<T>::Taken) == Slot::<T>::Taken,
{
}

} // verus!
