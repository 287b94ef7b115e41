//! Who is to be killed, who waits for room in which mailbox, and who waits
//! for whose reply.

use std::collections::HashMap;

use vstd::prelude::*;

use super::monitor::FlowExitReason;
use super::process::FlowId;
use crate::seqs::{filter_ends, filter_step};

verus! {

broadcast use vstd::std_specs::hash::group_hash_axioms;

/// What a map holds for a key.
pub open spec fn found<V>(m: Map<u64, V>, key: u64) -> Option<V> {
    if m.dom().contains(key) {
        Some(m[key])
    } else {
        None
    }
}

/// Kill signals for flows that could not be ended on the spot.
#[derive(Debug)]
pub struct KillSignals {
    signals: HashMap<u64, FlowExitReason>,
}

impl View for KillSignals {
    type V = Map<u64, FlowExitReason>;

    closed spec fn view(&self) -> Map<u64, FlowExitReason> {
        self.signals@
    }
}

impl KillSignals {
    pub fn new() -> (k: KillSignals)
        ensures
            k@ == Map::<u64, FlowExitReason>::empty(),
    {
        KillSignals { signals: HashMap::new() }
    }

    pub fn set(&mut self, id: FlowId, reason: FlowExitReason)
        ensures
            final(self)@ == old(self)@.insert(id.0, reason),
    {
        self.signals.insert(id.0, reason);
    }

    pub fn take(&mut self, id: FlowId) -> (r: Option<FlowExitReason>)
        ensures
            r == found(old(self)@, id.0),
            final(self)@ == old(self)@.remove(id.0),
    {
        let r = self.signals.remove(&id.0);
        assert(self@ =~= old(self)@.remove(id.0));
        r
    }
}

/// For each flow that waits for room, the flow whose mailbox is full.
#[derive(Debug)]
pub struct WaitingSendIndex {
    targets: HashMap<u64, u64>,
}

impl View for WaitingSendIndex {
    type V = Map<u64, u64>;

    closed spec fn view(&self) -> Map<u64, u64> {
        self.targets@
    }
}

/// A found number as a flow.
pub open spec fn as_flow(r: Option<u64>) -> Option<FlowId> {
    match r {
        Some(raw) => Some(FlowId(raw)),
        None => None,
    }
}

impl WaitingSendIndex {
    pub fn new() -> (w: WaitingSendIndex)
        ensures
            w@ == Map::<u64, u64>::empty(),
    {
        WaitingSendIndex { targets: HashMap::new() }
    }

    pub fn insert(&mut self, sender: FlowId, target: FlowId)
        ensures
            final(self)@ == old(self)@.insert(sender.0, target.0),
    {
        self.targets.insert(sender.0, target.0);
    }

    pub fn remove(&mut self, sender: FlowId) -> (r: Option<FlowId>)
        ensures
            r == as_flow(found(old(self)@, sender.0)),
            final(self)@ == old(self)@.remove(sender.0),
    {
        let r = match self.targets.remove(&sender.0) {
            Some(raw) => Some(FlowId(raw)),
            None => None,
        };
        assert(self@ =~= old(self)@.remove(sender.0));
        r
    }

    pub fn get(&self, sender: FlowId) -> (r: Option<FlowId>)
        ensures
            r == as_flow(found(self@, sender.0)),
    {
        match self.targets.get(&sender.0) {
            Some(raw) => Some(FlowId(*raw)),
            None => None,
        }
    }
}

/// Who asks whom, seen from both sides.
#[verifier::ext_equal]
pub struct AskView {
    pub by_asker: Map<u64, u64>,
    /// Askers of each flow, the latest last.
    pub by_target: Map<u64, Seq<u64>>,
}

/// What is not `x`.
pub open spec fn differs(x: u64) -> spec_fn(u64) -> bool {
    |y: u64| y != x
}

pub open spec fn without(s: Seq<u64>, x: u64) -> Seq<u64> {
    s.filter(differs(x))
}

impl AskView {
    pub open spec fn empty() -> AskView {
        AskView { by_asker: Map::empty(), by_target: Map::empty() }
    }

    /// The askers of a flow.
    pub open spec fn waiters(self, target: u64) -> Seq<u64> {
        match found(self.by_target, target) {
            Some(s) => s,
            None => Seq::empty(),
        }
    }

    /// Without what `asker` waits for.
    pub open spec fn detached(self, asker: u64) -> AskView {
        if self.by_asker.dom().contains(asker) {
            let target = self.by_asker[asker];
            let rest = without(self.waiters(target), asker);
            AskView {
                by_asker: self.by_asker.remove(asker),
                by_target: if rest.len() == 0 {
                    self.by_target.remove(target)
                } else {
                    self.by_target.insert(target, rest)
                },
            }
        } else {
            self
        }
    }

    /// With `asker` waiting for `target` and nobody else.
    pub open spec fn attached(self, asker: u64, target: u64) -> AskView {
        let base = self.detached(asker);
        AskView {
            by_asker: base.by_asker.insert(asker, target),
            by_target: base.by_target.insert(target, base.waiters(target).push(asker)),
        }
    }

    /// Without the askers of `target`.
    pub open spec fn released(self, target: u64) -> AskView {
        AskView {
            by_asker: self.by_asker.remove_keys(self.waiters(target).to_set()),
            by_target: self.by_target.remove(target),
        }
    }

    /// The two sides agree: each lists exactly what the other does, once.
    pub open spec fn consistent(self) -> bool {
        &&& forall|a: u64| #[trigger]
            self.by_asker.dom().contains(a) ==> self.waiters(self.by_asker[a]).contains(a)
        &&& forall|t: u64, i: int|
            #![trigger self.waiters(t)[i]]
            0 <= i < self.waiters(t).len() ==> self.by_asker.dom().contains(self.waiters(t)[i])
                && self.by_asker[self.waiters(t)[i]] == t
        &&& forall|t: u64| (#[trigger] self.waiters(t)).no_duplicates()
    }
}

/// Flows that wait for a reply, and of whom. When a flow ends, those who wait
/// for it are found here, so that nobody waits forever.
#[derive(Debug)]
pub struct AskWaitIndex {
    by_asker: HashMap<u64, u64>,
    by_target: HashMap<u64, Vec<u64>>,
}

pub open spec fn lists_view(m: Map<u64, Vec<u64>>) -> Map<u64, Seq<u64>> {
    m.map_values(|v: Vec<u64>| v@)
}

impl View for AskWaitIndex {
    type V = AskView;

    closed spec fn view(&self) -> AskView {
        AskView { by_asker: self.by_asker@, by_target: lists_view(self.by_target@) }
    }
}

impl AskWaitIndex {
    pub fn new() -> (a: AskWaitIndex)
        ensures
            a@ == AskView::empty(),
    {
        let a = AskWaitIndex { by_asker: HashMap::new(), by_target: HashMap::new() };
        assert(a@ =~= AskView::empty());
        a
    }

    /// `asker` now waits for `target`.
    pub fn insert(&mut self, asker: FlowId, target: FlowId)
        ensures
            final(self)@ == old(self)@.attached(asker.0, target.0),
    {
        let _ = self.remove_asker(asker);
        let ghost base = self@;
        self.by_asker.insert(asker.0, target.0);
        let mut list = match self.by_target.remove(&target.0) {
            Some(l) => l,
            None => Vec::new(),
        };
        assert(list@ =~= base.waiters(target.0));
        list.push(asker.0);
        self.by_target.insert(target.0, list);
        assert(self@ =~= old(self)@.attached(asker.0, target.0));
    }

    /// `asker` waits no more; whom it waited for.
    pub fn remove_asker(&mut self, asker: FlowId) -> (r: Option<FlowId>)
        ensures
            r == as_flow(found(old(self)@.by_asker, asker.0)),
            final(self)@ == old(self)@.detached(asker.0),
    {
        let target: u64 = match self.by_asker.remove(&asker.0) {
            Some(t) => t,
            None => {
                assert(self@ =~= old(self)@);
                return None;
            },
        };
        let list = match self.by_target.remove(&target) {
            Some(l) => l,
            None => Vec::new(),
        };
        let ghost all = list@;
        let ghost pred = differs(asker.0);
        assert(all =~= old(self)@.waiters(target));
        let mut kept: Vec<u64> = Vec::new();
        let mut i: usize = 0;
        proof {
            filter_ends(all, pred);
        }
        while i < list.len()
            invariant
                i <= list@.len(),
                list@ == all,
                pred == differs(asker.0),
                kept@ == all.take(i as int).filter(pred),
            decreases list@.len() - i,
        {
            proof {
                filter_step(all, pred, i as int);
            }
            let a: u64 = list[i];
            if a != asker.0 {
                kept.push(a);
            }
            i = i + 1;
        }
        proof {
            filter_ends(all, pred);
        }
        if kept.len() > 0 {
            self.by_target.insert(target, kept);
        }
        proof {
            let rest = without(old(self)@.waiters(target), asker.0);
            assert(rest == kept@);
            assert(self@.by_asker =~= old(self)@.detached(asker.0).by_asker);
            assert(self@.by_target =~= old(self)@.detached(asker.0).by_target);
        }
        Some(FlowId(target))
    }

    /// Release all who wait for `target`, in the order in which they began.
    pub fn take_waiters_of(&mut self, target: FlowId) -> (r: Vec<u64>)
        ensures
            r@ == old(self)@.waiters(target.0),
            final(self)@ == old(self)@.released(target.0),
    {
        let list = match self.by_target.remove(&target.0) {
            Some(l) => l,
            None => Vec::new(),
        };
        assert(list@ =~= old(self)@.waiters(target.0));
        let ghost before = self.by_asker@;
        let mut i: usize = 0;
        while i < list.len()
            invariant
                i <= list@.len(),
                before == old(self)@.by_asker,
                self.by_asker@ == before.remove_keys(list@.take(i as int).to_set()),
                self.by_target@ == old(self).by_target@.remove(target.0),
            decreases list@.len() - i,
        {
            let a: u64 = list[i];
            self.by_asker.remove(&a);
            i = i + 1;
            proof {
                let prefix = list@.take(i - 1);
                let more = list@.take(i as int);
                assert(more =~= prefix.push(a));
                push_to_set(prefix, a);
                assert(self.by_asker@ =~= before.remove_keys(more.to_set()));
            }
        }
        proof {
            assert(list@.take(list@.len() as int) =~= list@);
            assert(self@ =~= old(self)@.released(target.0));
        }
        list
    }
}

proof fn push_to_set(s: Seq<u64>, a: u64)
    ensures
        s.push(a).to_set() == s.to_set().insert(a),
{
    let more = s.push(a);
    assert forall|x: u64| more.to_set().contains(x) == s.to_set().insert(a).contains(x) by {
        if s.contains(x) {
            let k = choose|k: int| 0 <= k < s.len() && s[k] == x;
            assert(more[k] == x);
        }
        if x == a {
            assert(more[s.len() as int] == x);
        }
        if more.contains(x) {
            let k = choose|k: int| 0 <= k < more.len() && more[k] == x;
            if k < s.len() {
                assert(s[k] == x);
            }
        }
    }
    assert(more.to_set() =~= s.to_set().insert(a));
}

proof fn without_elements(s: Seq<u64>, x: u64)
    ensures
        forall|y: u64| without(s, x).contains(y) <==> s.contains(y) && y != x,
        s.no_duplicates() ==> without(s, x).no_duplicates(),
    decreases s.len(),
{
    reveal(Seq::filter);
    if s.len() > 0 {
        let front = s.drop_last();
        let rest = without(front, x);
        without_elements(front, x);
        assert forall|y: u64| without(s, x).contains(y) <==> s.contains(y) && y != x by {
            if s.contains(y) && y != x {
                let k = choose|k: int| 0 <= k < s.len() && s[k] == y;
                if k < front.len() {
                    assert(front[k] == y);
                    assert(rest.contains(y));
                    let j = choose|j: int| 0 <= j < rest.len() && rest[j] == y;
                    assert(without(s, x)[j] == y);
                } else {
                    assert(without(s, x)[rest.len() as int] == y);
                }
            }
            if without(s, x).contains(y) {
                let j = choose|j: int| 0 <= j < without(s, x).len() && without(s, x)[j] == y;
                if j < rest.len() {
                    assert(rest[j] == y);
                    assert(front.contains(y));
                    let k = choose|k: int| 0 <= k < front.len() && front[k] == y;
                    assert(s[k] == y);
                } else {
                    assert(s.last() == y);
                }
            }
        }
        if s.no_duplicates() {
            assert(front.no_duplicates());
            assert forall|i: int, j: int|
                0 <= i < j < without(s, x).len() implies without(s, x)[i] != without(s, x)[j] by {
                if j == rest.len() {
                    assert(without(s, x)[i] == rest[i]);
                    assert(rest.contains(rest[i]));
                    assert(front.contains(rest[i]));
                    let k = choose|k: int| 0 <= k < front.len() && front[k] == rest[i];
                    assert(s[k] != s[s.len() - 1]);
                } else {
                    assert(without(s, x)[i] == rest[i] && without(s, x)[j] == rest[j]);
                }
            }
        }
    }
}

/// Taking one asker out keeps the two sides in agreement.
pub proof fn detaching_keeps_agreement(v: AskView, asker: u64)
    requires
        v.consistent(),
    ensures
        v.detached(asker).consistent(),
        !v.detached(asker).by_asker.dom().contains(asker),
        forall|t: u64| !(#[trigger] v.detached(asker).waiters(t)).contains(asker),
{
    let w = v.detached(asker);
    if v.by_asker.dom().contains(asker) {
        let target = v.by_asker[asker];
        let rest = without(v.waiters(target), asker);
        without_elements(v.waiters(target), asker);
        assert(w.waiters(target) =~= rest);
        assert forall|t: u64| t != target implies #[trigger] w.waiters(t) == v.waiters(t) by {}
        assert forall|a: u64| #[trigger] w.by_asker.dom().contains(a) implies w.waiters(
            w.by_asker[a],
        ).contains(a) by {
            assert(v.waiters(v.by_asker[a]).contains(a));
        }
        assert forall|t: u64, i: int|
            #![trigger w.waiters(t)[i]]
            0 <= i < w.waiters(t).len() implies w.by_asker.dom().contains(w.waiters(t)[i])
            && w.by_asker[w.waiters(t)[i]] == t by {
            let a = w.waiters(t)[i];
            assert(w.waiters(t).contains(a));
            if t == target {
                assert(v.waiters(t).contains(a));
                let k = choose|k: int| 0 <= k < v.waiters(t).len() && v.waiters(t)[k] == a;
                assert(v.by_asker[v.waiters(t)[k]] == t);
            } else {
                assert(v.by_asker[v.waiters(t)[i]] == t);
            }
        }
        assert forall|t: u64| !(#[trigger] w.waiters(t)).contains(asker) by {
            if w.waiters(t).contains(asker) {
                let i = choose|i: int| 0 <= i < w.waiters(t).len() && w.waiters(t)[i] == asker;
                assert(w.by_asker.dom().contains(w.waiters(t)[i]));
            }
        }
    } else {
        assert forall|t: u64| !(#[trigger] w.waiters(t)).contains(asker) by {
            if w.waiters(t).contains(asker) {
                let i = choose|i: int| 0 <= i < w.waiters(t).len() && w.waiters(t)[i] == asker;
                assert(w.by_asker.dom().contains(w.waiters(t)[i]));
            }
        }
    }
}

/// A flow waits for at most one reply, and both sides know of it.
pub proof fn attaching_keeps_agreement(v: AskView, asker: u64, target: u64)
    requires
        v.consistent(),
    ensures
        v.attached(asker, target).consistent(),
        v.attached(asker, target).by_asker[asker] == target,
        v.attached(asker, target).waiters(target).last() == asker,
{
    detaching_keeps_agreement(v, asker);
    let base = v.detached(asker);
    let w = v.attached(asker, target);
    assert(w.waiters(target) =~= base.waiters(target).push(asker));
    assert forall|t: u64| t != target implies #[trigger] w.waiters(t) == base.waiters(t) by {}
    assert forall|a: u64| #[trigger] w.by_asker.dom().contains(a) implies w.waiters(
        w.by_asker[a],
    ).contains(a) by {
        if a == asker {
            assert(w.waiters(target)[base.waiters(target).len() as int] == asker);
        } else {
            let t = base.by_asker[a];
            assert(base.waiters(t).contains(a));
            let k = choose|k: int| 0 <= k < base.waiters(t).len() && base.waiters(t)[k] == a;
            assert(w.waiters(t)[k] == a);
        }
    }
    assert forall|t: u64, i: int|
        #![trigger w.waiters(t)[i]]
        0 <= i < w.waiters(t).len() implies w.by_asker.dom().contains(w.waiters(t)[i])
        && w.by_asker[w.waiters(t)[i]] == t by {
        if t == target && i == base.waiters(t).len() {
        } else {
            let a = base.waiters(t)[i];
            assert(base.waiters(t).contains(a));
            assert(base.by_asker[base.waiters(t)[i]] == t);
        }
    }
    assert forall|t: u64| (#[trigger] w.waiters(t)).no_duplicates() by {
        assert(base.waiters(t).no_duplicates());
        assert(!base.waiters(t).contains(asker));
    }
}

/// Releasing the askers of a flow releases exactly those who wait for it.
pub proof fn releasing_is_exact(v: AskView, target: u64, asker: u64)
    requires
        v.consistent(),
    ensures
        v.released(target).consistent(),
        v.waiters(target).contains(asker) <==> v.by_asker.dom().contains(asker)
            && v.by_asker[asker] == target,
        v.released(target).by_asker.dom().contains(asker) <==> v.by_asker.dom().contains(asker)
            && v.by_asker[asker] != target,
{
    let w = v.released(target);
    assert forall|a: u64| v.waiters(target).contains(a) <==> v.by_asker.dom().contains(a)
        && v.by_asker[a] == target by {
        if v.waiters(target).contains(a) {
            let i = choose|i: int| 0 <= i < v.waiters(target).len() && v.waiters(target)[i] == a;
            assert(v.by_asker[v.waiters(target)[i]] == target);
        }
    }
    assert forall|t: u64| t != target implies #[trigger] w.waiters(t) == v.waiters(t) by {}
    assert forall|a: u64| #[trigger] w.by_asker.dom().contains(a) implies w.waiters(
        w.by_asker[a],
    ).contains(a) by {
        assert(!v.waiters(target).contains(a));
        assert(v.by_asker.dom().contains(a));
    }
    assert forall|t: u64, i: int|
        #![trigger w.waiters(t)[i]]
        0 <= i < w.waiters(t).len() implies w.by_asker.dom().contains(w.waiters(t)[i])
        && w.by_asker[w.waiters(t)[i]] == t by {
        let a = v.waiters(t)[i];
        assert(v.by_asker.dom().contains(a) && v.by_asker[a] == t);
        assert(!v.waiters(target).contains(a));
    }
}

/// A flow that begins to wait for a reply waits for that one alone; when it
/// stops, it waits for none; and nobody else's wait is touched.
pub proof fn waits_of_others_stay(v: AskView, asker: u64, target: u64, other: u64)
    requires
        other != asker,
    ensures
        v.attached(asker, target).by_asker.dom().contains(asker),
        v.attached(asker, target).by_asker[asker] == target,
        !v.detached(asker).by_asker.dom().contains(asker),
        v.attached(asker, target).by_asker.dom().contains(other) == v.by_asker.dom().contains(
            other,
        ),
        v.attached(asker, target).by_asker[other] == v.by_asker[other],
        v.detached(asker).by_asker.dom().contains(other) == v.by_asker.dom().contains(other),
        v.detached(asker).by_asker[other] == v.by_asker[other],
        !v.by_asker.dom().contains(asker) ==> v.detached(asker) == v,
{
}

/// When the askers of a flow are released, those who wait for another keep
/// waiting for it.
pub proof fn released_askers_only(v: AskView, target: u64, other: u64)
    requires
        v.consistent(),
        v.by_asker.dom().contains(other),
        v.by_asker[other] != target,
    ensures
        v.released(target).by_asker.dom().contains(other),
        v.released(target).by_asker[other] == v.by_asker[other],
        v.released(target).waiters(target).len() == 0,
        v.released(target).waiters(v.by_asker[other]) == v.waiters(v.by_asker[other]),
{
    releasing_is_exact(v, target, other);
}

} // verus!
