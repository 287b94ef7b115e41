//! Where the flows are. Every live flow is in one place: with a worker or in a
//! run queue, ready to be put into one, asleep, waiting in its own mailbox for
//! a message, or waiting at another mailbox for room.

use vstd::prelude::*;

use super::mailbox::MailboxView;
use super::model::{Lane, PendingView, SharedView};
use super::process::{FlowId, FlowView};
use super::timer::{PayloadView, TimerEntryView};
use crate::bytecode::value::Value;
use crate::seqs::{tally, tally_insert, tally_push, tally_remove};

verus! {

/// An entry of the ready list that is flow `x`.
pub open spec fn ready_as(x: u64) -> spec_fn((Lane, FlowView)) -> bool {
    |p: (Lane, FlowView)| p.1.id.0 == x
}

/// An entry of the timer that is flow `x`, asleep.
pub open spec fn sleeps_as(x: u64) -> spec_fn(TimerEntryView) -> bool {
    |e: TimerEntryView| e.payload matches PayloadView::WakeSleeper(f) && f.id.0 == x
}

/// A sender in the line of a mailbox that is flow `x`.
pub open spec fn waits_as(x: u64) -> spec_fn((FlowView, Value)) -> bool {
    |p: (FlowView, Value)| p.0.id.0 == x
}

/// In how many places of the state flow `x` is.
pub open spec fn held(s: SharedView, x: u64) -> nat {
    tally(s.ready, ready_as(x)) + tally(s.timer.entries, sleeps_as(x)) + (if s.alive(FlowId(x))
        && s.directory[x].parked is Some {
        1nat
    } else {
        0nat
    }) + (if s.waiting_send.dom().contains(x) {
        1nat
    } else {
        0nat
    })
}

/// How often flow `x` waits for room at mailbox `at`.
pub open spec fn waits(s: SharedView, at: u64, x: u64) -> nat {
    tally(s.directory[at].waiting, waits_as(x))
}

/// Every live flow is in one place and no other flow is in any; `out` are the
/// flows that are not in the state, but with a worker or in a run queue.
pub open spec fn in_one_place(s: SharedView, out: Set<u64>) -> bool {
    forall|x: u64|
        (#[trigger] held(s, x)) + (if out.contains(x) {
            1nat
        } else {
            0nat
        }) == (if s.alive(FlowId(x)) {
            1nat
        } else {
            0nat
        })
}

/// A flow that waits for a message waits in its own mailbox.
pub open spec fn parked_at_home(s: SharedView) -> bool {
    forall|x: u64| #[trigger]
        s.directory.dom().contains(x) ==> (s.directory[x].parked matches Some(f) ==> f.id.0 == x)
}

/// The index of the flows that wait for room says what the waiting lists of the
/// mailboxes say: each of them waits once, where the index has it, and the
/// mailbox is there.
pub open spec fn waits_agree(s: SharedView) -> bool {
    &&& forall|x: u64| #[trigger]
        s.waiting_send.dom().contains(x) ==> s.alive(FlowId(s.waiting_send[x]))
    &&& forall|at: u64, x: u64|
        s.directory.dom().contains(at) ==> (#[trigger] waits(s, at, x)) == (
        if s.waiting_send.dom().contains(x) && s.waiting_send[x] == at {
            1nat
        } else {
            0nat
        })
}

/// No mailbox of a live flow is closed.
pub open spec fn mailboxes_open(s: SharedView) -> bool {
    forall|x: u64| #[trigger] s.directory.dom().contains(x) ==> !s.directory[x].closed
}

/// Every flow is where it belongs, while the mailbox of `closing` is being
/// closed.
pub open spec fn placed_but(s: SharedView, out: Set<u64>, closing: Option<u64>) -> bool {
    &&& in_one_place(s, out)
    &&& parked_at_home(s)
    &&& waits_agree(s)
    &&& forall|x: u64| #[trigger]
        s.directory.dom().contains(x) && closing != Some(x) ==> !s.directory[x].closed
}

/// The two states have the same flows in the same places.
pub open spec fn same_places(s: SharedView, t: SharedView) -> bool {
    &&& t.directory == s.directory
    &&& t.ready == s.ready
    &&& t.waiting_send == s.waiting_send
    &&& t.timer.entries == s.timer.entries
}

/// Where no flow is moved, every flow stays where it belongs.
pub proof fn unmoved(s: SharedView, t: SharedView, out: Set<u64>, c: Option<u64>)
    requires
        placed_but(s, out, c),
        same_places(s, t),
    ensures
        placed_but(t, out, c),
{
    assert forall|x: u64| #[trigger] held(t, x) == held(s, x) by {}
    assert forall|at: u64, x: u64| #[trigger] waits(t, at, x) == waits(s, at, x) by {}
}

/// The flows after the owner of a mailbox began to wait, stopped waiting, or
/// did neither.
pub open spec fn after_parking(out: Set<u64>, id: u64, before: MailboxView, after: MailboxView) -> Set<
    u64,
> {
    if before.parked is Some && after.parked is None {
        out.insert(id)
    } else if before.parked is None && after.parked is Some {
        out.remove(id)
    } else {
        out
    }
}

/// A mailbox changed, but not who waits for room at it.
pub proof fn mailbox_changed(
    s: SharedView,
    t: SharedView,
    out: Set<u64>,
    c: Option<u64>,
    id: FlowId,
    m: MailboxView,
)
    requires
        placed_but(s, out, c),
        s.alive(id),
        same_places(s.with_mailbox(id, m), t),
        m.waiting == s.directory[id.0].waiting,
        m.closed == s.directory[id.0].closed,
        m.parked matches Some(f) ==> f.id == id,
        s.directory[id.0].parked is None && m.parked is Some ==> out.contains(id.0),
    ensures
        placed_but(t, after_parking(out, id.0, s.directory[id.0], m), c),
        s.directory[id.0].parked is Some ==> !out.contains(id.0),
{
    let old = s.directory[id.0];
    let after = after_parking(out, id.0, old, m);
    assert(held(s, id.0) >= (if old.parked is Some {
        1nat
    } else {
        0nat
    }));
    assert forall|x: u64|
        (#[trigger] held(t, x)) + (if after.contains(x) {
            1nat
        } else {
            0nat
        }) == (if t.alive(FlowId(x)) {
            1nat
        } else {
            0nat
        }) by {
        assert(held(s, x) + (if out.contains(x) {
            1nat
        } else {
            0nat
        }) == (if s.alive(FlowId(x)) {
            1nat
        } else {
            0nat
        }));
    }
    assert forall|at: u64, x: u64| #[trigger] waits(t, at, x) == waits(s, at, x) by {}
}

/// A flow in hand is made ready.
pub proof fn made_ready_from_hand(
    s: SharedView,
    t: SharedView,
    out: Set<u64>,
    c: Option<u64>,
    lane: Lane,
    f: FlowView,
)
    requires
        placed_but(s, out, c),
        out.contains(f.id.0),
        same_places(s.made_ready(lane, f), t),
    ensures
        placed_but(t, out.remove(f.id.0), c),
{
    assert forall|x: u64|
        (#[trigger] held(t, x)) + (if out.remove(f.id.0).contains(x) {
            1nat
        } else {
            0nat
        }) == (if t.alive(FlowId(x)) {
            1nat
        } else {
            0nat
        }) by {
        tally_push(s.ready, (lane, f), ready_as(x));
        assert(held(s, x) >= 0);
    }
    assert forall|at: u64, x: u64| #[trigger] waits(t, at, x) == waits(s, at, x) by {}
}

/// An entry is added to the timer; if it is a sleeper, the flow was in hand.
pub proof fn timer_inserted(
    s: SharedView,
    t: SharedView,
    out: Set<u64>,
    c: Option<u64>,
    i: int,
    e: TimerEntryView,
)
    requires
        placed_but(s, out, c),
        0 <= i <= s.timer.entries.len(),
        t.directory == s.directory,
        t.ready == s.ready,
        t.waiting_send == s.waiting_send,
        t.timer.entries == s.timer.entries.insert(i, e),
        e.payload matches PayloadView::WakeSleeper(f) ==> out.contains(f.id.0),
    ensures
        placed_but(
            t,
            match e.payload {
                PayloadView::WakeSleeper(f) => out.remove(f.id.0),
                _ => out,
            },
            c,
        ),
{
    let after = match e.payload {
        PayloadView::WakeSleeper(f) => out.remove(f.id.0),
        _ => out,
    };
    assert forall|x: u64|
        (#[trigger] held(t, x)) + (if after.contains(x) {
            1nat
        } else {
            0nat
        }) == (if t.alive(FlowId(x)) {
            1nat
        } else {
            0nat
        }) by {
        tally_insert(s.timer.entries, i, e, sleeps_as(x));
        assert(held(s, x) >= 0);
    }
    assert forall|at: u64, x: u64| #[trigger] waits(t, at, x) == waits(s, at, x) by {}
}

/// The first entry leaves the timer; a sleeper is then in hand.
pub proof fn timer_popped(s: SharedView, t: SharedView, out: Set<u64>, c: Option<u64>)
    requires
        placed_but(s, out, c),
        s.timer.entries.len() > 0,
        t.directory == s.directory,
        t.ready == s.ready,
        t.waiting_send == s.waiting_send,
        t.timer.entries == s.timer.entries.skip(1),
    ensures
        placed_but(
            t,
            match s.timer.entries[0].payload {
                PayloadView::WakeSleeper(f) => out.insert(f.id.0),
                _ => out,
            },
            c,
        ),
        s.timer.entries[0].payload matches PayloadView::WakeSleeper(f) ==> !out.contains(f.id.0),
{
    let e = s.timer.entries[0];
    let after = match e.payload {
        PayloadView::WakeSleeper(f) => out.insert(f.id.0),
        _ => out,
    };
    assert(s.timer.entries.skip(1) =~= s.timer.entries.remove(0));
    assert forall|x: u64|
        (#[trigger] held(t, x)) + (if after.contains(x) {
            1nat
        } else {
            0nat
        }) == (if t.alive(FlowId(x)) {
            1nat
        } else {
            0nat
        }) by {
        tally_remove(s.timer.entries, 0, sleeps_as(x));
        assert(held(s, x) >= 0);
    }
    match e.payload {
        PayloadView::WakeSleeper(f) => {
            tally_remove(s.timer.entries, 0, sleeps_as(f.id.0));
            assert(held(s, f.id.0) >= 1);
        },
        _ => {},
    }
    assert forall|at: u64, x: u64| #[trigger] waits(t, at, x) == waits(s, at, x) by {}
}

/// A flow in hand begins to wait for room.
pub proof fn waiting_from_hand(
    s: SharedView,
    t: SharedView,
    out: Set<u64>,
    c: Option<u64>,
    target: FlowId,
    f: FlowView,
    v: Value,
)
    requires
        placed_but(s, out, c),
        s.alive(target),
        out.contains(f.id.0),
        t.directory == s.directory.insert(
            target.0,
            MailboxView {
                waiting: s.directory[target.0].waiting.push((f, v)),
                ..s.directory[target.0]
            },
        ),
        t.ready == s.ready,
        t.waiting_send == s.waiting_send.insert(f.id.0, target.0),
        t.timer.entries == s.timer.entries,
    ensures
        placed_but(t, out.remove(f.id.0), c),
{
    assert(held(s, f.id.0) == 0);
    assert(!s.waiting_send.dom().contains(f.id.0));
    assert forall|x: u64|
        (#[trigger] held(t, x)) + (if out.remove(f.id.0).contains(x) {
            1nat
        } else {
            0nat
        }) == (if t.alive(FlowId(x)) {
            1nat
        } else {
            0nat
        }) by {
        assert(held(s, x) >= 0);
    }
    assert forall|at: u64, x: u64| t.directory.dom().contains(at) implies (#[trigger] waits(
        t,
        at,
        x,
    )) == (if t.waiting_send.dom().contains(x) && t.waiting_send[x] == at {
        1nat
    } else {
        0nat
    }) by {
        assert(waits(s, at, x) >= 0);
        tally_push(s.directory[target.0].waiting, (f, v), waits_as(x));
    }
}

/// A flow that waited for room is in hand.
pub proof fn waiting_to_hand(
    s: SharedView,
    t: SharedView,
    out: Set<u64>,
    c: Option<u64>,
    target: FlowId,
    i: int,
    m: MailboxView,
)
    requires
        placed_but(s, out, c),
        s.alive(target),
        0 <= i < s.directory[target.0].waiting.len(),
        m.waiting == s.directory[target.0].waiting.remove(i),
        m.parked == s.directory[target.0].parked,
        m.closed == s.directory[target.0].closed,
        t.directory == s.directory.insert(target.0, m),
        t.ready == s.ready,
        t.waiting_send == s.waiting_send.remove(s.directory[target.0].waiting[i].0.id.0),
        t.timer.entries == s.timer.entries,
    ensures
        placed_but(t, out.insert(s.directory[target.0].waiting[i].0.id.0), c),
        !out.contains(s.directory[target.0].waiting[i].0.id.0),
        s.alive(s.directory[target.0].waiting[i].0.id),
{
    let w = s.directory[target.0].waiting;
    let id = w[i].0.id.0;
    tally_remove(w, i, waits_as(id));
    assert(waits(s, target.0, id) >= 1);
    assert(s.waiting_send.dom().contains(id) && s.waiting_send[id] == target.0);
    assert(held(s, id) >= 1);
    assert forall|x: u64|
        (#[trigger] held(t, x)) + (if out.insert(id).contains(x) {
            1nat
        } else {
            0nat
        }) == (if t.alive(FlowId(x)) {
            1nat
        } else {
            0nat
        }) by {
        assert(held(s, x) >= 0);
    }
    assert forall|at: u64, x: u64| t.directory.dom().contains(at) implies (#[trigger] waits(
        t,
        at,
        x,
    )) == (if t.waiting_send.dom().contains(x) && t.waiting_send[x] == at {
        1nat
    } else {
        0nat
    }) by {
        assert(waits(s, at, x) >= 0);
        tally_remove(w, i, waits_as(x));
    }
}

/// A new flow comes to life, ready to run.
pub proof fn born(
    s: SharedView,
    t: SharedView,
    out: Set<u64>,
    lane: Lane,
    f: FlowView,
    m: MailboxView,
)
    requires
        placed_but(s, out, None),
        !s.alive(f.id),
        m.parked is None,
        m.waiting.len() == 0,
        !m.closed,
        same_places(s.with_mailbox(f.id, m).made_ready(lane, f), t),
    ensures
        placed_but(t, out, None),
{
    assert forall|x: u64|
        (#[trigger] held(t, x)) + (if out.contains(x) {
            1nat
        } else {
            0nat
        }) == (if t.alive(FlowId(x)) {
            1nat
        } else {
            0nat
        }) by {
        tally_push(s.ready, (lane, f), ready_as(x));
        assert(held(s, x) >= 0);
    }
    assert forall|at: u64, x: u64| t.directory.dom().contains(at) implies (#[trigger] waits(
        t,
        at,
        x,
    )) == (if t.waiting_send.dom().contains(x) && t.waiting_send[x] == at {
        1nat
    } else {
        0nat
    }) by {
        assert(waits(s, at, x) >= 0);
    }
}

/// The flows of a work list, beside those that are out.
pub open spec fn hand_of(out: Set<u64>, work: Seq<PendingView>) -> Set<u64> {
    Set::new(
        |x: u64|
            out.contains(x) || exists|i: int| 0 <= i < work.len() && #[trigger] work[i].flow.id.0 == x,
    )
}

/// A work list has no flow twice, and none that is out.
pub open spec fn distinct(out: Set<u64>, work: Seq<PendingView>) -> bool {
    &&& forall|i: int, j: int|
        0 <= i < j < work.len() ==> (#[trigger] work[i]).flow.id.0 != (
        #[trigger] work[j]).flow.id.0
    &&& forall|i: int| 0 <= i < work.len() ==> !out.contains((#[trigger] work[i]).flow.id.0)
}

/// One more flow is in hand.
pub proof fn hand_push(out: Set<u64>, work: Seq<PendingView>, p: PendingView)
    ensures
        hand_of(out, work.push(p)) == hand_of(out, work).insert(p.flow.id.0),
        distinct(out, work) && !hand_of(out, work).contains(p.flow.id.0) ==> distinct(
            out,
            work.push(p),
        ),
{
    let more = work.push(p);
    assert forall|x: u64| hand_of(out, more).contains(x) == hand_of(out, work).insert(
        p.flow.id.0,
    ).contains(x) by {
        if hand_of(out, work).contains(x) && !out.contains(x) {
            let i = choose|i: int| 0 <= i < work.len() && #[trigger] work[i].flow.id.0 == x;
            assert(more[i].flow.id.0 == x);
        }
        if x == p.flow.id.0 {
            assert(more[work.len() as int].flow.id.0 == x);
        }
        if hand_of(out, more).contains(x) && !out.contains(x) {
            let i = choose|i: int| 0 <= i < more.len() && #[trigger] more[i].flow.id.0 == x;
            if i < work.len() {
                assert(work[i].flow.id.0 == x);
            }
        }
    }
    assert(hand_of(out, more) =~= hand_of(out, work).insert(p.flow.id.0));
    if distinct(out, work) && !hand_of(out, work).contains(p.flow.id.0) {
        assert forall|i: int, j: int| 0 <= i < j < more.len() implies (
        #[trigger] more[i]).flow.id.0 != (#[trigger] more[j]).flow.id.0 by {
            if j == work.len() {
                assert(work[i].flow.id.0 == more[i].flow.id.0);
            } else {
                assert(work[i].flow.id.0 != work[j].flow.id.0);
            }
        }
        assert forall|i: int| 0 <= i < more.len() implies !out.contains(
            (#[trigger] more[i]).flow.id.0,
        ) by {
            if i < work.len() {
                assert(!out.contains(work[i].flow.id.0));
            }
        }
    }
}

/// A second work list comes on top of a first.
pub proof fn hand_add(out: Set<u64>, a: Seq<PendingView>, b: Seq<PendingView>)
    ensures
        hand_of(out, a + b) == hand_of(hand_of(out, a), b),
        distinct(out, a) && distinct(hand_of(out, a), b) ==> distinct(out, a + b),
    decreases b.len(),
{
    if b.len() == 0 {
        assert(a + b =~= a);
        assert(hand_of(hand_of(out, a), b) =~= hand_of(out, a));
    } else {
        let front = b.drop_last();
        let p = b.last();
        hand_add(out, a, front);
        assert(a + b =~= (a + front).push(p));
        assert(b =~= front.push(p));
        hand_push(out, a + front, p);
        hand_push(hand_of(out, a), front, p);
        if distinct(out, a) && distinct(hand_of(out, a), b) {
            assert(distinct(hand_of(out, a), front)) by {
                assert forall|i: int, j: int| 0 <= i < j < front.len() implies (
                #[trigger] front[i]).flow.id.0 != (#[trigger] front[j]).flow.id.0 by {
                    assert(b[i].flow.id.0 != b[j].flow.id.0);
                }
                assert forall|i: int| 0 <= i < front.len() implies !hand_of(out, a).contains(
                    (#[trigger] front[i]).flow.id.0,
                ) by {
                    assert(!hand_of(out, a).contains(b[i].flow.id.0));
                }
            }
            assert(!hand_of(hand_of(out, a), front).contains(p.flow.id.0)) by {
                assert(!hand_of(out, a).contains(b[b.len() - 1].flow.id.0));
                if exists|i: int| 0 <= i < front.len() && #[trigger] front[i].flow.id.0 == p.flow.id.0 {
                    let i = choose|i: int|
                        0 <= i < front.len() && #[trigger] front[i].flow.id.0 == p.flow.id.0;
                    assert(b[i].flow.id.0 != b[b.len() - 1].flow.id.0);
                }
            }
        }
    }
}

/// The last flow of a work list is taken up.
pub proof fn hand_pop(out: Set<u64>, work: Seq<PendingView>)
    requires
        work.len() > 0,
        distinct(out, work),
    ensures
        hand_of(out, work).contains(work.last().flow.id.0),
        hand_of(out, work).remove(work.last().flow.id.0) == hand_of(out, work.drop_last()),
        distinct(out, work.drop_last()),
{
    let front = work.drop_last();
    let p = work.last();
    assert(work =~= front.push(p));
    hand_push(out, front, p);
    assert forall|i: int, j: int| 0 <= i < j < front.len() implies (
    #[trigger] front[i]).flow.id.0 != (#[trigger] front[j]).flow.id.0 by {
        assert(work[i].flow.id.0 != work[j].flow.id.0);
    }
    assert forall|i: int| 0 <= i < front.len() implies !out.contains(
        (#[trigger] front[i]).flow.id.0,
    ) by {
        assert(!out.contains(work[i].flow.id.0));
    }
    assert(!hand_of(out, front).contains(p.flow.id.0)) by {
        assert(!out.contains(work[work.len() - 1].flow.id.0));
        if exists|i: int| 0 <= i < front.len() && #[trigger] front[i].flow.id.0 == p.flow.id.0 {
            let i = choose|i: int|
                0 <= i < front.len() && #[trigger] front[i].flow.id.0 == p.flow.id.0;
            assert(work[i].flow.id.0 != work[work.len() - 1].flow.id.0);
        }
    }
    assert(hand_of(out, front).insert(p.flow.id.0).remove(p.flow.id.0) =~= hand_of(out, front));
}

} // verus!
