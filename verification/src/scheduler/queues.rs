//! Run queues: one that all workers share, and one for each worker, from which
//! the others steal.

use crossbeam_deque::{Injector, Steal, Stealer, Worker};
use vstd::prelude::*;

use super::metrics::RuntimeMetrics;
use super::model::Lane;
use super::process::{opt_flow_view, Flow, FlowView};
use super::shared::ready_view;
use crate::seqs::{filter_ends, filter_step};

verus! {

/// The queue that all workers share. Other threads change it at any time, so
/// nothing is known of what is in it.
#[verifier::external_type_specification]
#[verifier::external_body]
#[verifier::reject_recursive_types(T)]
pub struct ExInjector<T>(Injector<T>);

/// The queue of one worker. Other threads take from it at any time, so nothing
/// is known of what is in it.
#[verifier::external_type_specification]
#[verifier::external_body]
#[verifier::reject_recursive_types(T)]
pub struct ExWorker<T>(Worker<T>);

/// The end of a worker's queue that other workers take from.
#[verifier::external_type_specification]
#[verifier::external_body]
#[verifier::reject_recursive_types(T)]
pub struct ExStealer<T>(Stealer<T>);

/// What an attempt to take from a queue of another thread came to.
#[derive(Debug)]
pub enum Attempt {
    Empty,
    /// Another thread was in the way.
    Retry,
    Taken(Box<Flow>),
}

/// The outcome of an attempt as a mathematical value.
pub enum AttemptView {
    Empty,
    Retry,
    Taken(FlowView),
}

impl View for Attempt {
    type V = AttemptView;

    open spec fn view(&self) -> AttemptView {
        match self {
            Attempt::Empty => AttemptView::Empty,
            Attempt::Retry => AttemptView::Retry,
            Attempt::Taken(flow) => AttemptView::Taken((**flow)@),
        }
    }
}

/// The flows that were put into the queue that all share through one handle on
/// it, in order. Flows leave the queue at any time, so this is not what is in it.
pub uninterp spec fn put_shared(q: Injector<Box<Flow>>) -> Seq<FlowView>;

/// The flows that were put into a worker's own queue through one handle on it,
/// in order. Flows leave the queue at any time, so this is not what is in it.
pub uninterp spec fn put_local(q: Worker<Box<Flow>>) -> Seq<FlowView>;

/// What the attempts to take from the queue that all share came to that were
/// made through one handle on it, in order.
pub uninterp spec fn shared_tries(q: Injector<Box<Flow>>) -> Seq<AttemptView>;

/// What the attempts to take from a worker's own queue came to that were made
/// through one handle on it, in order.
pub uninterp spec fn local_tries(q: Worker<Box<Flow>>) -> Seq<Option<FlowView>>;

/// What the attempts to steal from another worker came to that were made
/// through one handle on its queue, in order.
pub uninterp spec fn steal_tries(s: Stealer<Box<Flow>>) -> Seq<AttemptView>;

/// Whether a thief takes from this queue.
pub uninterp spec fn steals_from(s: Stealer<Box<Flow>>, q: Worker<Box<Flow>>) -> bool;

/// `Injector::new`: a queue into which nothing was put.
#[verifier::external_body]
fn new_injector() -> (q: Injector<Box<Flow>>)
    ensures
        put_shared(q) == Seq::<FlowView>::empty(),
{
    Injector::new()
}

/// `Worker::new_fifo`: a queue for one worker into which nothing was put. What
/// was put in first comes out first; that is not stated, since other threads
/// take from it too.
#[verifier::external_body]
fn new_local() -> (q: Worker<Box<Flow>>)
    ensures
        put_local(q) == Seq::<FlowView>::empty(),
{
    Worker::new_fifo()
}

/// `Worker::stealer`: the end of this queue that others take from.
#[verifier::external_body]
fn stealer_of(q: &Worker<Box<Flow>>) -> (s: Stealer<Box<Flow>>)
    ensures
        steals_from(s, *q),
{
    q.stealer()
}

/// `Worker::push`: put this flow into the worker's own queue. What is in the
/// queue afterwards is not stated, since others may take from it at once.
#[verifier::external_body]
fn push_local(q: &mut &Worker<Box<Flow>>, flow: Box<Flow>)
    ensures
        put_local(**final(q)) == put_local(**old(q)).push((*flow)@),
        local_tries(**final(q)) == local_tries(**old(q)),
{
    q.push(flow)
}

/// `Worker::pop`: take a flow from the worker's own queue, if there is one.
/// This is one more attempt on it, and puts nothing in. Which flow comes
/// depends on the other threads and is not stated.
#[verifier::external_body]
fn pop_local(q: &mut &Worker<Box<Flow>>) -> (r: Option<Box<Flow>>)
    ensures
        local_tries(**final(q)) == local_tries(**old(q)).push(opt_flow_view(r)),
        put_local(**final(q)) == put_local(**old(q)),
{
    q.pop()
}

/// `Injector::push`: put this flow into the queue that all share. What is in
/// the queue afterwards is not stated, since others may take from it at once.
#[verifier::external_body]
fn push_global(q: &mut &Injector<Box<Flow>>, flow: Box<Flow>)
    ensures
        put_shared(**final(q)) == put_shared(**old(q)).push((*flow)@),
        shared_tries(**final(q)) == shared_tries(**old(q)),
{
    q.push(flow)
}

/// `Injector::steal`: try to take a flow from the queue that all share. This is
/// one more attempt on it, and puts nothing in. Its outcome depends on the
/// other threads and is not stated.
#[verifier::external_body]
fn steal_global(q: &mut &Injector<Box<Flow>>) -> (r: Attempt)
    ensures
        shared_tries(**final(q)) == shared_tries(**old(q)).push(r@),
        put_shared(**final(q)) == put_shared(**old(q)),
{
    match q.steal() {
        Steal::Empty => Attempt::Empty,
        Steal::Retry => Attempt::Retry,
        Steal::Success(flow) => Attempt::Taken(flow),
    }
}

/// `Stealer::steal`: try to take a flow from the queue of another worker. This
/// is one more attempt on it. Its outcome depends on the other threads and is
/// not stated.
#[verifier::external_body]
fn steal_from(s: &mut &Stealer<Box<Flow>>) -> (r: Attempt)
    ensures
        steal_tries(**final(s)) == steal_tries(**old(s)).push(r@),
{
    match s.steal() {
        Steal::Empty => Attempt::Empty,
        Steal::Retry => Attempt::Retry,
        Steal::Success(flow) => Attempt::Taken(flow),
    }
}

/// The queues of a pool of workers.
pub struct Queues {
    pub injector: Injector<Box<Flow>>,
    pub locals: Vec<Worker<Box<Flow>>>,
    pub stealers: Vec<Stealer<Box<Flow>>>,
}

impl Queues {
    /// Queues for this many workers, one if none is asked for, each with an end
    /// that others take from.
    pub fn new(workers: usize) -> (q: Queues)
        ensures
            put_shared(q.injector) == Seq::<FlowView>::empty(),
            q.locals@.len() == pool_size(workers),
            q.stealers@.len() == pool_size(workers),
            forall|i: int|
                0 <= i < pool_size(workers) ==> {
                    &&& put_local(#[trigger] q.locals@[i]) == Seq::<FlowView>::empty()
                    &&& steals_from(q.stealers@[i], q.locals@[i])
                },
    {
        let n: usize = if workers == 0 {
            1
        } else {
            workers
        };
        let mut locals: Vec<Worker<Box<Flow>>> = Vec::new();
        let mut stealers: Vec<Stealer<Box<Flow>>> = Vec::new();
        let mut i: usize = 0;
        while i < n
            invariant
                i <= n,
                locals@.len() == i,
                stealers@.len() == i,
                forall|j: int|
                    0 <= j < i ==> {
                        &&& put_local(#[trigger] locals@[j]) == Seq::<FlowView>::empty()
                        &&& steals_from(stealers@[j], locals@[j])
                    },
            decreases n - i,
        {
            let local = new_local();
            stealers.push(stealer_of(&local));
            locals.push(local);
            i = i + 1;
        }
        Queues { injector: new_injector(), locals, stealers }
    }
}

/// Number of workers in a pool: at least one.
pub open spec fn pool_size(workers: usize) -> usize {
    if workers == 0 {
        1
    } else {
        workers
    }
}

/// Where work was found.
#[derive(Debug)]
pub enum Work {
    Nothing,
    Local(Box<Flow>),
    Shared(Box<Flow>),
    /// From the queue of another worker.
    Stolen(Box<Flow>),
}

impl Work {
    pub open spec fn spec_flow(self) -> Option<FlowView> {
        match self {
            Work::Nothing => None,
            Work::Local(f) => Some((*f)@),
            Work::Shared(f) => Some((*f)@),
            Work::Stolen(f) => Some((*f)@),
        }
    }

    /// The flow that was found. A theft is counted.
    pub fn claim(self, metrics: &mut RuntimeMetrics) -> (r: Option<Box<Flow>>)
        ensures
            opt_flow_view(r) == self.spec_flow(),
            *final(metrics) == (if self is Stolen {
                RuntimeMetrics { steals: old(metrics).steals.wrapping_add(1), ..*old(metrics) }
            } else {
                *old(metrics)
            }),
    {
        match self {
            Work::Nothing => None,
            Work::Local(flow) => Some(flow),
            Work::Shared(flow) => Some(flow),
            Work::Stolen(flow) => {
                RuntimeMetrics::inc(&mut metrics.steals);
                Some(flow)
            },
        }
    }
}

/// A queue that a worker looks into.
#[derive(Clone, Copy, Debug, PartialEq, Eq, Structural)]
pub enum Place {
    Own,
    Shared,
    /// That of the worker with this number.
    Other(usize),
}

/// How a search for work goes on.
#[derive(Debug)]
pub enum Search {
    Look(Place),
    Over(Work),
}

/// Where to look after a place that was empty, among this many workers: first
/// into the own queue, then into the one that all share, then into those of
/// the workers in turn.
pub open spec fn place_after(place: Place, workers: usize) -> Option<Place> {
    match place {
        Place::Own => Some(Place::Shared),
        Place::Shared => if workers > 0 {
            Some(Place::Other(0))
        } else {
            None
        },
        Place::Other(i) => if i + 1 < workers {
            Some(Place::Other((i + 1) as usize))
        } else {
            None
        },
    }
}

/// How a search goes on after an attempt: a flow ends it, an empty queue
/// leads to the next place, and an attempt that another thread disturbed is
/// made again.
pub fn search_step(place: Place, attempt: Attempt, workers: usize) -> (r: Search)
    ensures
        r == (match attempt {
            Attempt::Taken(flow) => Search::Over(
                match place {
                    Place::Own => Work::Local(flow),
                    Place::Shared => Work::Shared(flow),
                    Place::Other(_) => Work::Stolen(flow),
                },
            ),
            Attempt::Retry => Search::Look(place),
            Attempt::Empty => match place_after(place, workers) {
                Some(next) => Search::Look(next),
                None => Search::Over(Work::Nothing),
            },
        }),
{
    match attempt {
        Attempt::Taken(flow) => Search::Over(
            match place {
                Place::Own => Work::Local(flow),
                Place::Shared => Work::Shared(flow),
                Place::Other(_) => Work::Stolen(flow),
            },
        ),
        Attempt::Retry => Search::Look(place),
        Attempt::Empty => match place {
            Place::Own => Search::Look(Place::Shared),
            Place::Shared => {
                if workers > 0 {
                    Search::Look(Place::Other(0))
                } else {
                    Search::Over(Work::Nothing)
                }
            },
            Place::Other(i) => {
                if i < workers && i + 1 < workers {
                    Search::Look(Place::Other(i + 1))
                } else {
                    Search::Over(Work::Nothing)
                }
            },
        },
    }
}

/// This many attempts that other threads disturbed.
pub open spec fn retries(n: nat) -> Seq<AttemptView> {
    Seq::new(n, |i: int| AttemptView::Retry)
}

/// A queue was tried until an attempt was not disturbed, and that one had this
/// outcome.
pub open spec fn tried_until(
    before: Seq<AttemptView>,
    after: Seq<AttemptView>,
    outcome: AttemptView,
) -> bool {
    &&& after.len() > before.len()
    &&& after == before + retries((after.len() - before.len() - 1) as nat).push(outcome)
}

/// Nothing was to be had from a queue: it was empty, or very many attempts in
/// turn were disturbed.
pub open spec fn passed_by(before: Seq<AttemptView>, after: Seq<AttemptView>) -> bool {
    tried_until(before, after, AttemptView::Empty) || after == before + retries(u64::MAX as nat)
}

/// The attempts on each of the other workers.
pub open spec fn all_steal_tries(stealers: Seq<&Stealer<Box<Flow>>>) -> Seq<Seq<AttemptView>> {
    stealers.map_values(|s: &Stealer<Box<Flow>>| steal_tries(*s))
}

/// Of the others the first `n` were passed by and those from `m` on were left
/// alone.
pub open spec fn others_passed(
    before: Seq<Seq<AttemptView>>,
    after: Seq<Seq<AttemptView>>,
    n: int,
    m: int,
) -> bool {
    &&& after.len() == before.len()
    &&& forall|j: int| 0 <= j < n ==> passed_by(before[j], #[trigger] after[j])
    &&& forall|j: int| m <= j < after.len() ==> #[trigger] after[j] == before[j]
}

/// The flow came from the worker with number `k`, those before it were passed
/// by, and those behind it were left alone.
pub open spec fn taken_from(
    before: Seq<Seq<AttemptView>>,
    after: Seq<Seq<AttemptView>>,
    k: int,
    flow: FlowView,
) -> bool {
    &&& 0 <= k < before.len()
    &&& others_passed(before, after, k, k + 1)
    &&& tried_until(before[k], after[k], AttemptView::Taken(flow))
}

/// A search for work led to `work`: the own queue is asked once, then the one
/// that all share, then those of the others in turn. It ends with the first
/// flow that an attempt gives, and finds nothing only if every queue was passed
/// by. No flow that was taken is dropped, and no queue behind the one that gave
/// the flow is touched.
pub open spec fn searched(
    work: Work,
    own: (Seq<Option<FlowView>>, Seq<Option<FlowView>>),
    shared: (Seq<AttemptView>, Seq<AttemptView>),
    others: (Seq<Seq<AttemptView>>, Seq<Seq<AttemptView>>),
) -> bool {
    match work {
        Work::Local(flow) => {
            &&& own.1 == own.0.push(Some((*flow)@))
            &&& shared.1 == shared.0
            &&& others.1 == others.0
        },
        Work::Shared(flow) => {
            &&& own.1 == own.0.push(None)
            &&& tried_until(shared.0, shared.1, AttemptView::Taken((*flow)@))
            &&& others.1 == others.0
        },
        Work::Stolen(flow) => {
            &&& own.1 == own.0.push(None)
            &&& passed_by(shared.0, shared.1)
            &&& exists|k: int| #[trigger] taken_from(others.0, others.1, k, (*flow)@)
        },
        Work::Nothing => {
            &&& own.1 == own.0.push(None)
            &&& passed_by(shared.0, shared.1)
            &&& others_passed(others.0, others.1, others.0.len() as int, others.0.len() as int)
        },
    }
}

/// A search came to `place`, where `n` attempts were disturbed.
spec fn searching(
    place: Place,
    n: nat,
    own: (Seq<Option<FlowView>>, Seq<Option<FlowView>>),
    shared: (Seq<AttemptView>, Seq<AttemptView>),
    others: (Seq<Seq<AttemptView>>, Seq<Seq<AttemptView>>),
) -> bool {
    match place {
        Place::Own => {
            &&& n == 0
            &&& own.1 == own.0
            &&& shared.1 == shared.0
            &&& others.1 == others.0
        },
        Place::Shared => {
            &&& own.1 == own.0.push(None)
            &&& shared.1 == shared.0 + retries(n)
            &&& others.1 == others.0
        },
        Place::Other(i) => {
            &&& i < others.0.len()
            &&& own.1 == own.0.push(None)
            &&& passed_by(shared.0, shared.1)
            &&& others_passed(others.0, others.1, i as int, i + 1)
            &&& others.1[i as int] == others.0[i as int] + retries(n)
        },
    }
}

/// One more attempt on a queue where `n` were disturbed.
proof fn one_more_try(before: Seq<AttemptView>, after: Seq<AttemptView>, n: nat, a: AttemptView)
    requires
        after == before + retries(n),
    ensures
        tried_until(before, after.push(a), a),
        a is Retry ==> after.push(a) == before + retries(n + 1),
{
    assert(after.push(a) =~= before + retries(n).push(a));
    if a is Retry {
        assert(after.push(a) =~= before + retries(n + 1));
    }
}

/// How many places are left after this one.
spec fn places_left(place: Place, workers: usize) -> nat {
    match place {
        Place::Own => workers as nat + 2,
        Place::Shared => workers as nat + 1,
        Place::Other(i) => (workers - i) as nat,
    }
}

/// Look for a flow to run, place by place. A queue is passed by after very many
/// disturbed attempts on it. What an attempt comes to depends on the other
/// threads; what is made of it is stated.
pub fn find_work(
    local: &mut &Worker<Box<Flow>>,
    injector: &mut &Injector<Box<Flow>>,
    stealers: &mut Vec<&Stealer<Box<Flow>>>,
) -> (r: Work)
    ensures
        searched(
            r,
            (local_tries(**old(local)), local_tries(**final(local))),
            (shared_tries(**old(injector)), shared_tries(**final(injector))),
            (all_steal_tries(old(stealers)@), all_steal_tries(final(stealers)@)),
        ),
        put_local(**final(local)) == put_local(**old(local)),
        put_shared(**final(injector)) == put_shared(**old(injector)),
{
    let workers: usize = stealers.len();
    let ghost own = local_tries(**local);
    let ghost shared = shared_tries(**injector);
    let ghost others = all_steal_tries(stealers@);
    let mut place = Place::Own;
    let mut disturbed: u64 = 0;
    loop
        invariant
            workers == stealers@.len(),
            own == local_tries(**old(local)),
            shared == shared_tries(**old(injector)),
            others == all_steal_tries(old(stealers)@),
            others.len() == workers,
            place matches Place::Other(i) ==> i < workers,
            disturbed < u64::MAX,
            searching(
                place,
                disturbed as nat,
                (own, local_tries(**local)),
                (shared, shared_tries(**injector)),
                (others, all_steal_tries(stealers@)),
            ),
            put_local(**local) == put_local(**old(local)),
            put_shared(**injector) == put_shared(**old(injector)),
        decreases places_left(place, workers), u64::MAX - disturbed,
    {
        let ghost shared_before = shared_tries(**injector);
        let ghost others_before = all_steal_tries(stealers@);
        let mut attempt = match place {
            Place::Own => match pop_local(local) {
                Some(flow) => Attempt::Taken(flow),
                None => Attempt::Empty,
            },
            Place::Shared => steal_global(injector),
            Place::Other(i) => {
                let mut stealer = stealers[i];
                let tried = steal_from(&mut stealer);
                stealers.set(i, stealer);
                tried
            },
        };
        let ghost outcome = attempt@;
        proof {
            match place {
                Place::Own => {},
                Place::Shared => {
                    one_more_try(shared, shared_before, disturbed as nat, outcome);
                },
                Place::Other(i) => {
                    one_more_try(others[i as int], others_before[i as int], disturbed as nat, outcome);
                    let after = all_steal_tries(stealers@);
                    assert(after[i as int] == others_before[i as int].push(outcome));
                    assert forall|j: int| 0 <= j < workers && j != i implies #[trigger] after[j]
                        == others_before[j] by {}
                },
            }
        }
        match attempt {
            Attempt::Retry => {
                disturbed = disturbed + 1;
                if disturbed == u64::MAX {
                    attempt = Attempt::Empty;
                }
            },
            _ => {},
        }
        match search_step(place, attempt, workers) {
            Search::Look(next) => {
                if next != place {
                    disturbed = 0;
                }
                proof {
                    let after = all_steal_tries(stealers@);
                    match next {
                        Place::Other(k) => {
                            if next != place {
                                assert(after[k as int] =~= others[k as int] + retries(0));
                            }
                        },
                        Place::Shared => {
                            if next != place {
                                assert(shared_tries(**injector) =~= shared + retries(0));
                            }
                        },
                        Place::Own => {},
                    }
                }
                place = next;
            },
            Search::Over(work) => {
                proof {
                    let after = all_steal_tries(stealers@);
                    if let Place::Other(i) = place {
                        assert(others_passed(others, after, i as int, i + 1));
                        if work is Nothing {
                            assert(passed_by(others[i as int], after[i as int]));
                            assert(others_passed(others, after, i + 1, i + 1));
                        } else {
                            assert(work matches Work::Stolen(flow) && taken_from(
                                others,
                                after,
                                i as int,
                                (*flow)@,
                            ));
                        }
                    } else if work is Nothing {
                        assert(others_passed(others, after, 0, 0));
                    }
                }
                return work;
            },
        }
    }
}

/// Which flows go to a queue.
pub open spec fn goes_to(lane: Lane) -> spec_fn((Lane, FlowView)) -> bool {
    |p: (Lane, FlowView)| p.0 == lane
}

/// The flows of a list that go to one of the queues, in order.
pub open spec fn bound_for(ready: Seq<(Lane, FlowView)>, lane: Lane) -> Seq<FlowView> {
    flows_of(ready.filter(goes_to(lane)))
}

/// All flows of a list, in order.
pub open spec fn flows_of(ready: Seq<(Lane, FlowView)>) -> Seq<FlowView> {
    ready.map_values(|p: (Lane, FlowView)| p.1)
}

/// The flows for a queue are those of the list that go there, in its order: one
/// more flow in the list is one more for its own queue, behind the others, and
/// none for the other queue.
pub proof fn one_more_bound(ready: Seq<(Lane, FlowView)>, i: int, lane: Lane)
    requires
        0 <= i < ready.len(),
    ensures
        bound_for(ready.take(i + 1), lane) == (if ready[i].0 == lane {
            bound_for(ready.take(i), lane).push(ready[i].1)
        } else {
            bound_for(ready.take(i), lane)
        }),
        flows_of(ready.take(i + 1)) == flows_of(ready.take(i)).push(ready[i].1),
{
    filter_step(ready, goes_to(lane), i);
    let kept = ready.take(i).filter(goes_to(lane));
    assert(flows_of(kept.push(ready[i])) =~= flows_of(kept).push(ready[i].1));
    assert(flows_of(ready.take(i + 1)) =~= flows_of(ready.take(i)).push(ready[i].1));
}

/// Put flows that became able to run into their queues, in order. The result
/// is how many there were.
pub fn publish(
    ready: Vec<(Lane, Box<Flow>)>,
    local: &mut &Worker<Box<Flow>>,
    injector: &mut &Injector<Box<Flow>>,
) -> (n: usize)
    ensures
        n == ready@.len(),
        put_local(**final(local)) == put_local(**old(local)) + bound_for(
            ready_view(ready@),
            Lane::Local,
        ),
        put_shared(**final(injector)) == put_shared(**old(injector)) + bound_for(
            ready_view(ready@),
            Lane::Global,
        ),
        local_tries(**final(local)) == local_tries(**old(local)),
        shared_tries(**final(injector)) == shared_tries(**old(injector)),
{
    let n: usize = ready.len();
    let ghost all = ready_view(ready@);
    let mut rest = ready;
    let mut done: usize = 0;
    proof {
        filter_ends(all, goes_to(Lane::Local));
        filter_ends(all, goes_to(Lane::Global));
        assert(bound_for(all.take(0), Lane::Local) =~= Seq::empty());
        assert(bound_for(all.take(0), Lane::Global) =~= Seq::empty());
    }
    while done < n
        invariant
            done <= n,
            n == ready@.len(),
            all == ready_view(ready@),
            rest@ =~= ready@.skip(done as int),
            put_local(**local) =~= put_local(**old(local)) + bound_for(
                all.take(done as int),
                Lane::Local,
            ),
            put_shared(**injector) =~= put_shared(**old(injector)) + bound_for(
                all.take(done as int),
                Lane::Global,
            ),
            local_tries(**local) == local_tries(**old(local)),
            shared_tries(**injector) == shared_tries(**old(injector)),
        decreases n - done,
    {
        let (lane, flow) = rest.remove(0);
        proof {
            assert(all[done as int] == (lane, (*flow)@));
            one_more_bound(all, done as int, Lane::Local);
            one_more_bound(all, done as int, Lane::Global);
        }
        match lane {
            Lane::Local => push_local(local, flow),
            Lane::Global => push_global(injector, flow),
        }
        done = done + 1;
    }
    assert(all.take(n as int) =~= all);
    n
}

/// Put flows that became able to run into the queue that all share, for a
/// thread that has none of its own.
pub fn publish_global(
    ready: Vec<(Lane, Box<Flow>)>,
    injector: &mut &Injector<Box<Flow>>,
) -> (n: usize)
    ensures
        n == ready@.len(),
        put_shared(**final(injector)) == put_shared(**old(injector)) + flows_of(
            ready_view(ready@),
        ),
        shared_tries(**final(injector)) == shared_tries(**old(injector)),
{
    let n: usize = ready.len();
    let ghost all = ready_view(ready@);
    let mut rest = ready;
    let mut done: usize = 0;
    assert(flows_of(all.take(0)) =~= Seq::empty());
    while done < n
        invariant
            done <= n,
            n == ready@.len(),
            all == ready_view(ready@),
            rest@ =~= ready@.skip(done as int),
            put_shared(**injector) =~= put_shared(**old(injector)) + flows_of(
                all.take(done as int),
            ),
            shared_tries(**injector) == shared_tries(**old(injector)),
        decreases n - done,
    {
        let (lane, flow) = rest.remove(0);
        proof {
            assert(all[done as int] == (lane, (*flow)@));
            one_more_bound(all, done as int, lane);
        }
        push_global(injector, flow);
        done = done + 1;
    }
    assert(all.take(n as int) =~= all);
    n
}

/// No flow that became able to run is lost or doubled on the way to the queues.
pub proof fn publishing_loses_nothing(ready: Seq<(Lane, FlowView)>, k: int)
    ensures
        bound_for(ready, Lane::Local).len() + bound_for(ready, Lane::Global).len() == ready.len(),
        flows_of(ready).len() == ready.len(),
        0 <= k < ready.len() ==> bound_for(ready, ready[k].0).contains(ready[k].1),
        0 <= k < ready.len() ==> flows_of(ready)[k] == ready[k].1,
        ready.len() == 0 ==> bound_for(ready, Lane::Local).len() == 0 && bound_for(
            ready,
            Lane::Global,
        ).len() == 0,
    decreases ready.len(),
{
    reveal(Seq::filter);
    if ready.len() > 0 {
        let n = ready.len() - 1;
        let rest = ready.take(n);
        assert(ready.take(n + 1) =~= ready);
        publishing_loses_nothing(rest, k);
        one_more_bound(ready, n, Lane::Local);
        one_more_bound(ready, n, Lane::Global);
        if 0 <= k < ready.len() {
            let lane = ready[k].0;
            let before = bound_for(rest, lane);
            let after = bound_for(ready, lane);
            if k < n {
                assert(rest[k] == ready[k]);
                let j = choose|j: int| 0 <= j < before.len() && before[j] == ready[k].1;
                assert(after[j] == ready[k].1);
            } else {
                assert(after[before.len() as int] == ready[k].1);
            }
        }
    }
}

/// None of the attempts behind the first `n` gave a flow.
pub open spec fn none_taken(tries: Seq<AttemptView>, n: int) -> bool {
    forall|i: int| n <= i < tries.len() ==> !(#[trigger] tries[i] is Taken)
}

/// The own queue is asked first, once. Only when it is empty is the shared queue
/// asked, and only when that gives nothing are the others, in turn; the search
/// ends with the first flow that is given, and comes back without one only if
/// none was given.
pub proof fn search_takes_the_first_flow(
    work: Work,
    own: (Seq<Option<FlowView>>, Seq<Option<FlowView>>),
    shared: (Seq<AttemptView>, Seq<AttemptView>),
    others: (Seq<Seq<AttemptView>>, Seq<Seq<AttemptView>>),
    j: int,
)
    requires
        searched(work, own, shared, others),
    ensures
        own.1.len() == own.0.len() + 1,
        own.1.drop_last() == own.0,
        own.1.last() is Some <==> work is Local,
        work matches Work::Local(flow) ==> own.1.last() == Some((*flow)@),
        work is Local ==> shared.1 == shared.0,
        work is Local || work is Shared ==> others.1 == others.0,
        work matches Work::Shared(flow) ==> {
            &&& shared.1.len() > shared.0.len()
            &&& shared.1.last() == AttemptView::Taken((*flow)@)
            &&& none_taken(shared.1.drop_last(), shared.0.len() as int)
        },
        work is Stolen || work is Nothing ==> shared.1.len() > shared.0.len() && none_taken(
            shared.1,
            shared.0.len() as int,
        ),
        work is Nothing && 0 <= j < others.0.len() ==> others.1[j].len() > others.0[j].len()
            && none_taken(others.1[j], others.0[j].len() as int),
        work matches Work::Stolen(flow) ==> exists|k: int|
            0 <= k < others.0.len() && (#[trigger] others.1[k]).len() > others.0[k].len()
                && others.1[k].last() == AttemptView::Taken((*flow)@) && none_taken(
                others.1[k].drop_last(),
                others.0[k].len() as int,
            ) && (0 <= j < k ==> others.1[j].len() > others.0[j].len() && none_taken(
                others.1[j],
                others.0[j].len() as int,
            )) && (k < j < others.0.len() ==> others.1[j] == others.0[j]),
{
    match work {
        Work::Local(_) => {},
        Work::Shared(_) => {},
        Work::Stolen(flow) => {
            let k = choose|k: int| #[trigger] taken_from(others.0, others.1, k, (*flow)@);
            assert(tried_until(others.0[k], others.1[k], AttemptView::Taken((*flow)@)));
            if 0 <= j < k {
                assert(passed_by(others.0[j], others.1[j]));
            }
        },
        Work::Nothing => {
            if 0 <= j < others.0.len() {
                assert(passed_by(others.0[j], others.1[j]));
            }
        },
    }
}

/// A search visits the own queue, the shared one and each of the others, one after
/// the other, and then ends.
pub proof fn every_queue_has_its_turn(workers: usize, i: usize)
    ensures
        place_after(Place::Own, workers) == Some(Place::Shared),
        workers > 0 ==> place_after(Place::Shared, workers) == Some(Place::Other(0)),
        workers == 0 ==> place_after(Place::Shared, workers) is None,
        i + 1 < workers ==> (place_after(Place::Other(i), workers) matches Some(Place::Other(j))
            && j == i + 1),
        i + 1 >= workers ==> place_after(Place::Other(i), workers) is None,
{
}

} // verus!
