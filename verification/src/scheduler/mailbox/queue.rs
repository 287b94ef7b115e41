//! The bounded queue of a mailbox.

use std::collections::VecDeque;

use vstd::prelude::*;

use super::policy::OverflowPolicy;
use crate::bytecode::value::Value;

verus! {

/// What the values of a queue are charged together.
pub open spec fn charge_sum(q: Seq<Value>) -> nat
    decreases q.len(),
{
    if q.len() == 0 {
        0
    } else {
        charge_sum(q.drop_last()) + q.last().charge()
    }
}

/// Which bound a message would exceed.
#[derive(Clone, Copy, Debug, PartialEq, Eq, Structural)]
pub enum MailboxFullReason {
    Messages,
    Bytes,
}

impl MailboxFullReason {
    pub open spec fn spec_text(self) -> &'static str {
        match self {
            MailboxFullReason::Messages => "message limit",
            MailboxFullReason::Bytes => "byte limit",
        }
    }

    pub fn to_text(&self) -> (s: &'static str)
        ensures
            s == self.spec_text(),
    {
        match self {
            MailboxFullReason::Messages => "message limit",
            MailboxFullReason::Bytes => "byte limit",
        }
    }
}

/// What the queue did with a message.
#[derive(Clone, Copy, Debug, PartialEq, Eq, Structural)]
pub enum EnqueueEffect {
    Enqueued,
    DroppedNewest,
    /// This many old messages made room.
    DroppedOldest(u64),
}

/// Whether a queue within the bounds stays within them with `v` added.
pub open spec fn fits(q: Seq<Value>, limit: nat, budget: nat, v: Value) -> bool {
    q.len() < limit && charge_sum(q) + v.charge() <= budget
}

/// How many of the oldest messages have to go until `v` fits.
pub open spec fn to_drop(q: Seq<Value>, limit: nat, budget: nat, v: Value) -> nat
    decreases q.len(),
{
    if q.len() == 0 || fits(q, limit, budget, v) {
        0
    } else {
        1 + to_drop(q.skip(1), limit, budget, v)
    }
}

/// The bound that `v` meets first.
pub open spec fn full_reason(q: Seq<Value>, limit: nat) -> MailboxFullReason {
    if q.len() >= limit {
        MailboxFullReason::Messages
    } else {
        MailboxFullReason::Bytes
    }
}

/// The queue after it was offered `v`, and what it did. Old messages are
/// dropped only for a message that fits once they are gone.
pub open spec fn enqueued(
    q: Seq<Value>,
    limit: nat,
    budget: nat,
    v: Value,
    policy: OverflowPolicy,
) -> (Seq<Value>, Result<EnqueueEffect, MailboxFullReason>) {
    if fits(q, limit, budget, v) {
        (q.push(v), Ok(EnqueueEffect::Enqueued))
    } else {
        match policy {
            OverflowPolicy::Reject => (q, Err(full_reason(q, limit))),
            OverflowPolicy::DropNewest => (q, Ok(EnqueueEffect::DroppedNewest)),
            OverflowPolicy::DropOldest => if limit == 0 || v.charge() > budget {
                (q, Ok(EnqueueEffect::DroppedNewest))
            } else {
                let n = to_drop(q, limit, budget, v);
                (q.skip(n as int).push(v), Ok(EnqueueEffect::DroppedOldest(n as u64)))
            },
        }
    }
}

#[derive(Debug)]
struct QueueState {
    inner: VecDeque<Value>,
    bytes: u128,
}

impl QueueState {
    spec fn sound(self) -> bool {
        self.bytes == charge_sum(self.inner@)
    }

    fn push(&mut self, v: Value)
        requires
            old(self).sound(),
        ensures
            final(self).sound(),
            final(self).inner@ == old(self).inner@.push(v),
    {
        proof {
            charge_bounded(self.inner@);
            assert(self.inner@.push(v).drop_last() =~= self.inner@);
            let n = self.inner@.len();
            let m = usize::MAX as nat;
            assert(self.inner@.len() == self.inner.len());
            assert(n * m + m <= 0xFFFF_FFFF_FFFF_FFFF * 0x1_0000_0000_0000_0000) by (nonlinear_arith)
                requires
                    n <= 0xFFFF_FFFF_FFFF_FFFF,
                    m <= 0xFFFF_FFFF_FFFF_FFFF,
            ;
        }
        self.bytes = self.bytes + v.memory_size() as u128;
        self.inner.push_back(v);
    }

    fn take(&mut self, i: usize) -> (v: Value)
        requires
            old(self).sound(),
            i < old(self).inner@.len(),
        ensures
            final(self).sound(),
            v == old(self).inner@[i as int],
            final(self).inner@ == old(self).inner@.remove(i as int),
    {
        proof {
            charge_without(self.inner@, i as int);
        }
        let v = self.inner.remove(i);
        match v {
            Some(v) => {
                self.bytes = self.bytes - v.memory_size() as u128;
                v
            },
            None => Value::Unit,
        }
    }
}

proof fn charge_bounded(q: Seq<Value>)
    ensures
        charge_sum(q) <= q.len() * (usize::MAX as nat),
    decreases q.len(),
{
    if q.len() > 0 {
        charge_bounded(q.drop_last());
        let n = q.len();
        let m = usize::MAX as nat;
        assert((n - 1) * m + m == n * m) by (nonlinear_arith);
    }
}

/// The charge of a queue is that of one message and of the others.
pub proof fn charge_without(q: Seq<Value>, i: int)
    requires
        0 <= i < q.len(),
    ensures
        charge_sum(q) == charge_sum(q.remove(i)) + q[i].charge(),
    decreases q.len(),
{
    if i == q.len() - 1 {
        assert(q.remove(i) =~= q.drop_last());
    } else {
        charge_without(q.drop_last(), i);
        assert(q.remove(i).drop_last() =~= q.drop_last().remove(i));
        assert(q.remove(i).last() == q.last());
    }
}

/// Messages in order of arrival, bounded in number and in bytes. The byte
/// count is kept up to date rather than recomputed.
#[derive(Debug)]
pub struct MailboxQueue {
    state: QueueState,
    limit: usize,
    budget: usize,
}

impl View for MailboxQueue {
    type V = Seq<Value>;

    closed spec fn view(&self) -> Seq<Value> {
        self.state.inner@
    }
}

impl MailboxQueue {
    #[verifier::type_invariant]
    spec fn inv(self) -> bool {
        self.state.sound()
    }

    pub closed spec fn spec_limit(&self) -> nat {
        self.limit as nat
    }

    pub closed spec fn spec_budget(&self) -> nat {
        self.budget as nat
    }

    /// A queue that is bounded in number only.
    pub fn new(limit: usize) -> (q: MailboxQueue)
        ensures
            q@ == Seq::<Value>::empty(),
            q.spec_limit() == limit,
            q.spec_budget() == usize::MAX,
    {
        MailboxQueue::bounded(limit, usize::MAX)
    }

    pub fn bounded(limit: usize, budget: usize) -> (q: MailboxQueue)
        ensures
            q@ == Seq::<Value>::empty(),
            q.spec_limit() == limit,
            q.spec_budget() == budget,
    {
        MailboxQueue { state: QueueState { inner: VecDeque::new(), bytes: 0 }, limit, budget }
    }

    pub fn len(&self) -> (n: usize)
        ensures
            n == self@.len(),
    {
        self.state.inner.len()
    }

    pub fn is_empty(&self) -> (r: bool)
        ensures
            r == (self@.len() == 0),
    {
        self.state.inner.len() == 0
    }

    /// Whether the queue holds as many messages as it may.
    pub fn is_full(&self) -> (r: bool)
        ensures
            r == (self@.len() >= self.spec_limit()),
    {
        self.state.inner.len() >= self.limit
    }

    /// What the messages are charged.
    pub fn bytes(&self) -> (n: u128)
        ensures
            n == charge_sum(self@),
    {
        proof {
            use_type_invariant(self);
        }
        self.state.bytes
    }

    pub fn get(&self, i: usize) -> (v: &Value)
        requires
            i < self@.len(),
        ensures
            *v == self@[i as int],
    {
        &self.state.inner[i]
    }

    /// Add a message at the end, whether it fits or not.
    pub fn push(&mut self, v: Value)
        ensures
            final(self)@ == old(self)@.push(v),
            final(self).spec_limit() == old(self).spec_limit(),
            final(self).spec_budget() == old(self).spec_budget(),
    {
        proof {
            use_type_invariant(&*self);
        }
        let mut state = QueueState { inner: VecDeque::new(), bytes: 0 };
        std::mem::swap(&mut state, &mut self.state);
        state.push(v);
        self.state = state;
    }

    /// Take the message at position `i` out; the others keep their order.
    pub fn take(&mut self, i: usize) -> (v: Value)
        requires
            i < old(self)@.len(),
        ensures
            v == old(self)@[i as int],
            final(self)@ == old(self)@.remove(i as int),
            final(self).spec_limit() == old(self).spec_limit(),
            final(self).spec_budget() == old(self).spec_budget(),
    {
        proof {
            use_type_invariant(&*self);
        }
        let mut state = QueueState { inner: VecDeque::new(), bytes: 0 };
        std::mem::swap(&mut state, &mut self.state);
        let v = state.take(i);
        self.state = state;
        v
    }

    /// Whether `v` can be added within both bounds.
    pub fn fits(&self, v: &Value) -> (r: bool)
        ensures
            r == fits(self@, self.spec_limit(), self.spec_budget(), *v),
    {
        let bytes: u128 = self.bytes();
        self.len() < self.limit && bytes <= self.budget as u128 && v.memory_size() as u128
            <= self.budget as u128 - bytes
    }

    /// Offer a message to the queue.
    pub fn enqueue(&mut self, v: Value, policy: OverflowPolicy) -> (r: Result<
        EnqueueEffect,
        MailboxFullReason,
    >)
        ensures
            (final(self)@, r) == enqueued(
                old(self)@,
                old(self).spec_limit(),
                old(self).spec_budget(),
                v,
                policy,
            ),
            final(self).spec_limit() == old(self).spec_limit(),
            final(self).spec_budget() == old(self).spec_budget(),
    {
        if self.fits(&v) {
            self.push(v);
            return Ok(EnqueueEffect::Enqueued);
        }
        match policy {
            OverflowPolicy::Reject => {
                if self.is_full() {
                    Err(MailboxFullReason::Messages)
                } else {
                    Err(MailboxFullReason::Bytes)
                }
            },
            OverflowPolicy::DropNewest => Ok(EnqueueEffect::DroppedNewest),
            OverflowPolicy::DropOldest => {
                if self.limit == 0 || v.memory_size() > self.budget {
                    return Ok(EnqueueEffect::DroppedNewest);
                }
                let mut n: u64 = 0;
                let ghost q = self@;
                let ghost limit = self.spec_limit();
                let ghost budget = self.spec_budget();
                assert(q.skip(0) =~= q);
                assert(q.len() == self.state.inner.len());
                while self.len() > 0 && !self.fits(&v)
                    invariant
                        q == old(self)@,
                        n <= q.len() <= usize::MAX,
                        self@ == q.skip(n as int),
                        self.spec_limit() == limit,
                        self.spec_budget() == budget,
                        to_drop(q, limit, budget, v) == n + to_drop(self@, limit, budget, v),
                    decreases self@.len(),
                {
                    let _ = self.take(0);
                    assert(q.skip(n as int).remove(0) =~= q.skip(n as int).skip(1));
                    assert(q.skip(n as int).skip(1) =~= q.skip((n + 1) as int));
                    n = n + 1;
                }
                assert(to_drop(self@, limit, budget, v) == 0);
                self.push(v);
                Ok(EnqueueEffect::DroppedOldest(n))
            },
        }
    }
}

/// Offering a message never takes a queue beyond its bounds.
pub proof fn enqueue_respects_bounds(
    q: Seq<Value>,
    limit: nat,
    budget: nat,
    v: Value,
    policy: OverflowPolicy,
)
    requires
        q.len() <= limit,
        charge_sum(q) <= budget,
    ensures
        enqueued(q, limit, budget, v, policy).0.len() <= limit,
        charge_sum(enqueued(q, limit, budget, v, policy).0) <= budget,
{
    let after = enqueued(q, limit, budget, v, policy).0;
    assert(q.push(v).drop_last() =~= q);
    if policy is DropOldest && limit > 0 && v.charge() <= budget {
        let n = to_drop(q, limit, budget, v);
        dropping_makes_room(q, limit, budget, v);
        assert(q.skip(n as int).push(v).drop_last() =~= q.skip(n as int));
    }
}

proof fn dropping_makes_room(q: Seq<Value>, limit: nat, budget: nat, v: Value)
    requires
        limit > 0,
        v.charge() <= budget,
    ensures
        to_drop(q, limit, budget, v) <= q.len(),
        fits(q.skip(to_drop(q, limit, budget, v) as int), limit, budget, v),
    decreases q.len(),
{
    if q.len() == 0 || fits(q, limit, budget, v) {
        assert(q.skip(0) =~= q);
    } else {
        dropping_makes_room(q.skip(1), limit, budget, v);
        let n = to_drop(q.skip(1), limit, budget, v);
        assert(q.skip(1).skip(n as int) =~= q.skip((n + 1) as int));
    }
}

/// In a queue that is full by number and has room for the bytes, exactly one
/// old message makes room, the oldest.
pub proof fn drop_oldest_slides(q: Seq<Value>, limit: nat, budget: nat, v: Value)
    requires
        q.len() == limit,
        limit > 0,
        charge_sum(q) + v.charge() <= budget,
    ensures
        enqueued(q, limit, budget, v, OverflowPolicy::DropOldest) == (
            q.skip(1).push(v),
            Ok::<EnqueueEffect, MailboxFullReason>(EnqueueEffect::DroppedOldest(1)),
        ),
{
    charge_without(q, 0);
    assert(q.remove(0) =~= q.skip(1));
    reveal_with_fuel(to_drop, 2);
}

/// What the messages of a queue are charged is nothing for none, and one charge
/// more for each one added.
pub proof fn charges_add_up(q: Seq<Value>, v: Value)
    ensures
        charge_sum(Seq::empty()) == 0,
        charge_sum(q.push(v)) == charge_sum(q) + v.charge(),
{
    assert(q.push(v).drop_last() =~= q);
}

/// `v` can be added to `q` within the bounds.
pub open spec fn has_room(q: Seq<Value>, limit: nat, budget: nat, v: Value) -> bool {
    q.len() + 1 <= limit && charge_sum(q) + v.charge() <= budget
}

/// With the `n` oldest messages gone, and not with fewer of them gone, there is
/// room for `v`, and `after` is what is left with `v` at the end.
pub open spec fn slides_by(
    q: Seq<Value>,
    limit: nat,
    budget: nat,
    v: Value,
    after: Seq<Value>,
    n: int,
) -> bool {
    &&& 0 < n <= q.len()
    &&& has_room(q.skip(n), limit, budget, v)
    &&& forall|k: int| 0 <= k < n ==> !has_room(#[trigger] q.skip(k), limit, budget, v)
    &&& after == q.skip(n).push(v)
}

/// What becomes of a message. With room it is the last one in the queue. Without
/// room it is refused for the bound that is met, or it is dropped and the queue
/// stays as it is, or as few of the oldest messages as possible make room for it,
/// unless none would be enough: then it is dropped too.
pub proof fn overflow_is_as_configured(
    q: Seq<Value>,
    limit: nat,
    budget: nat,
    v: Value,
    policy: OverflowPolicy,
)
    requires
        q.len() <= u64::MAX,
    ensures
        ({
            let (after, r) = enqueued(q, limit, budget, v, policy);
            if has_room(q, limit, budget, v) {
                after == q.push(v) && r == Ok::<_, MailboxFullReason>(EnqueueEffect::Enqueued)
            } else if policy == OverflowPolicy::Reject {
                after == q && (r matches Err(cause) && (cause == MailboxFullReason::Messages
                    <==> q.len() >= limit))
            } else if policy == OverflowPolicy::DropNewest || limit == 0 || v.charge() > budget {
                after == q && r == Ok::<_, MailboxFullReason>(EnqueueEffect::DroppedNewest)
            } else {
                r matches Ok(EnqueueEffect::DroppedOldest(n)) && slides_by(
                    q,
                    limit,
                    budget,
                    v,
                    after,
                    n as int,
                )
            }
        }),
{
    if policy is DropOldest && limit > 0 && v.charge() <= budget && !fits(q, limit, budget, v) {
        let n = to_drop(q, limit, budget, v);
        dropping_makes_room(q, limit, budget, v);
        if n == 0 {
            assert(q.skip(0) =~= q);
        }
        assert forall|k: int| 0 <= k < n implies !has_room(#[trigger] q.skip(k), limit, budget, v) by {
            fewer_do_not_do(q, limit, budget, v, k as nat);
        }
    }
}

proof fn fewer_do_not_do(q: Seq<Value>, limit: nat, budget: nat, v: Value, k: nat)
    requires
        k < to_drop(q, limit, budget, v),
    ensures
        k < q.len(),
        !fits(q.skip(k as int), limit, budget, v),
    decreases q.len(),
{
    if k == 0 {
        assert(q.skip(0) =~= q);
    } else {
        fewer_do_not_do(q.skip(1), limit, budget, v, (k - 1) as nat);
        assert(q.skip(1).skip(k - 1) =~= q.skip(k as int));
    }
}

} // verus!
