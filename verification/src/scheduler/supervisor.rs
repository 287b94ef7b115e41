//! Restarting children.
//!
//! A supervisor restarts only the child that ended, under the child's policy,
//! and stops restarting for good when restarts come too fast.

use std::collections::{HashMap, VecDeque};

use vstd::prelude::*;

use super::effects::spawning_is_exact;
use super::error::{SpawnError, SpawnErrorView};
use super::handle::FlowHandle;
use super::model::{spawned, spawned_ids, SharedView};
use super::process::{FlowId, FlowOutcome, Ids, IdsView, OutcomeView, RestartPolicy};
use super::runtime::{handle_result, open_gate, RuntimeSpawner};
use super::shared::Shared;
use super::waits::found;
use crate::bytecode::chunk::Chunk;
use crate::bytecode::value::Value;
use crate::seqs::filter_all;
use crate::vm::native::NativeFn;

verus! {

broadcast use vstd::std_specs::hash::group_hash_axioms;

/// A child to start, and to start again with the same arguments.
#[derive(Debug)]
pub struct ChildSpec {
    pub name: String,
    pub function: u32,
    pub args: Vec<Value>,
    pub restart: RestartPolicy,
}

/// A [`ChildSpec`] as a mathematical value.
#[verifier::ext_equal]
pub struct ChildView {
    pub name: Seq<char>,
    pub function: u32,
    pub args: Seq<Value>,
    pub restart: RestartPolicy,
}

impl View for ChildSpec {
    type V = ChildView;

    open spec fn view(&self) -> ChildView {
        ChildView {
            name: self.name@,
            function: self.function,
            args: self.args@,
            restart: self.restart,
        }
    }
}

impl ChildSpec {
    /// A child without arguments that is restarted on failure.
    pub fn new(name: &str, function: u32) -> (c: ChildSpec)
        ensures
            c@ == (ChildView {
                name: name@,
                function,
                args: Seq::empty(),
                restart: RestartPolicy::OnFailure,
            }),
    {
        ChildSpec {
            name: name.to_owned(),
            function,
            args: Vec::new(),
            restart: RestartPolicy::OnFailure,
        }
    }

    pub fn args(self, args: Vec<Value>) -> (c: ChildSpec)
        ensures
            c@ == (ChildView { args: args@, ..self@ }),
    {
        ChildSpec { name: self.name, function: self.function, args, restart: self.restart }
    }

    pub fn restart(self, restart: RestartPolicy) -> (c: ChildSpec)
        ensures
            c@ == (ChildView { restart, ..self@ }),
    {
        ChildSpec { name: self.name, function: self.function, args: self.args, restart }
    }
}

/// How many restarts are allowed in how many milliseconds.
#[derive(Clone, Copy, Debug, PartialEq, Eq, Structural)]
pub struct SupervisorConfig {
    /// Restarts within [`Self::max_period`]; the first start does not count.
    pub max_restarts: u32,
    pub max_period: u64,
}

impl Default for SupervisorConfig {
    /// Three restarts in five seconds.
    fn default() -> (c: SupervisorConfig)
        ensures
            c == (SupervisorConfig { max_restarts: 3, max_period: 5000 }),
    {
        SupervisorConfig { max_restarts: 3, max_period: 5000 }
    }
}

/// Whether the policy asks for a restart after this outcome.
pub open spec fn wants_restart(policy: RestartPolicy, outcome: OutcomeView) -> bool {
    match policy {
        RestartPolicy::Always => true,
        RestartPolicy::OnFailure => outcome is Failed,
        RestartPolicy::Never => false,
    }
}

pub fn should_restart(policy: RestartPolicy, outcome: &FlowOutcome) -> (r: bool)
    ensures
        r == wants_restart(policy, outcome@),
{
    match policy {
        RestartPolicy::Always => true,
        RestartPolicy::OnFailure => match outcome {
            FlowOutcome::Failed(_) => true,
            FlowOutcome::Completed(_) => false,
        },
        RestartPolicy::Never => false,
    }
}

/// Start of the last period before `now`, at most as far back as the start of
/// the clock.
pub open spec fn window_start(now: u64, period: u64) -> u64 {
    if now >= period {
        (now - period) as u64
    } else {
        0
    }
}

/// The times without the leading ones before `start`.
pub open spec fn pruned(times: Seq<u64>, start: u64) -> Seq<u64>
    decreases times.len(),
{
    if times.len() > 0 && times[0] < start {
        pruned(times.skip(1), start)
    } else {
        times
    }
}

/// A supervisor as a mathematical value.
#[verifier::ext_equal]
pub struct SupervisorView {
    pub config: SupervisorConfig,
    /// Live children by flow.
    pub children: Map<u64, ChildView>,
    /// When restarts were asked for, within the window.
    pub restart_times: Seq<u64>,
    pub intensity_exceeded: bool,
    /// It does not look after its children any more.
    pub stopped: bool,
}

impl SupervisorView {
    /// With another request for a restart at `now`.
    pub open spec fn recent(self, now: u64) -> Seq<u64> {
        pruned(self.restart_times.push(now), window_start(now, self.config.max_period))
    }

    /// Whether that is one too many.
    pub open spec fn too_many(self, now: u64) -> bool {
        self.recent(now).len() > self.config.max_restarts
    }

    /// The state after child `id` ended, and what is to be started again.
    pub open spec fn exited(self, id: u64, outcome: OutcomeView, now: u64) -> (
        SupervisorView,
        Option<ChildView>,
    ) {
        match found(self.children, id) {
            None => (self, None),
            Some(_) if self.stopped => (self, None),
            Some(child) => {
                let left = SupervisorView { children: self.children.remove(id), ..self };
                if !wants_restart(child.restart, outcome) || self.intensity_exceeded {
                    (left, None)
                } else {
                    let counted = SupervisorView {
                        restart_times: self.recent(now),
                        intensity_exceeded: self.too_many(now),
                        ..left
                    };
                    (
                        counted,
                        if self.too_many(now) {
                            None
                        } else {
                            Some(child)
                        },
                    )
                }
            },
        }
    }
}

impl SupervisorView {
    /// With a child that was started, if it was.
    pub open spec fn with_started(
        self,
        started: Result<FlowId, SpawnErrorView>,
        child: ChildView,
    ) -> SupervisorView {
        match started {
            Ok(id) => SupervisorView { children: self.children.insert(id.0, child), ..self },
            Err(_) => self,
        }
    }
}

/// The start of a child under supervision.
pub open spec fn child_started(
    s: SharedView,
    ids: IdsView,
    chunk: Chunk,
    natives: Seq<Option<(Seq<char>, NativeFn)>>,
    child: ChildView,
    link: u64,
) -> (SharedView, Result<FlowId, SpawnErrorView>) {
    spawned(
        s,
        ids,
        chunk,
        natives,
        open_gate(natives),
        child.function,
        child.args,
        child.restart,
        Some(link),
    )
}

/// The children of one supervisor and its restarts.
#[derive(Debug)]
pub struct Supervisor {
    config: SupervisorConfig,
    children: HashMap<u64, ChildSpec>,
    restart_times: VecDeque<u64>,
    intensity_exceeded: bool,
    stopped: bool,
}

pub open spec fn children_view(m: Map<u64, ChildSpec>) -> Map<u64, ChildView> {
    m.map_values(|c: ChildSpec| c@)
}

impl View for Supervisor {
    type V = SupervisorView;

    closed spec fn view(&self) -> SupervisorView {
        SupervisorView {
            config: self.config,
            children: children_view(self.children@),
            restart_times: self.restart_times@,
            intensity_exceeded: self.intensity_exceeded,
            stopped: self.stopped,
        }
    }
}

impl Supervisor {
    pub fn new() -> (s: Supervisor)
        ensures
            s@ == (SupervisorView {
                config: SupervisorConfig { max_restarts: 3, max_period: 5000 },
                children: Map::empty(),
                restart_times: Seq::empty(),
                intensity_exceeded: false,
                stopped: false,
            }),
    {
        Supervisor::with_config(SupervisorConfig::default())
    }

    pub fn with_config(config: SupervisorConfig) -> (s: Supervisor)
        ensures
            s@ == (SupervisorView {
                config,
                children: Map::empty(),
                restart_times: Seq::empty(),
                intensity_exceeded: false,
                stopped: false,
            }),
    {
        let s = Supervisor {
            config,
            children: HashMap::new(),
            restart_times: VecDeque::new(),
            intensity_exceeded: false,
            stopped: false,
        };
        assert(s@.children =~= Map::empty());
        s
    }

    /// Take charge of a child that was started as flow `id`.
    pub fn adopt(&mut self, id: FlowId, spec: ChildSpec)
        ensures
            final(self)@ == (SupervisorView {
                children: old(self)@.children.insert(id.0, spec@),
                ..old(self)@
            }),
    {
        self.children.insert(id.0, spec);
        assert(self@.children =~= old(self)@.children.insert(id.0, spec@));
    }

    /// Start a child and take charge of it. Its end is announced with the
    /// number `link`, under which this supervisor is known.
    pub fn start_child(
        &mut self,
        shared: &mut Shared,
        ids: &mut Ids,
        spawner: &RuntimeSpawner,
        link: u64,
        spec: ChildSpec,
    ) -> (r: Result<FlowHandle, SpawnError>)
        ensures
            (final(shared)@, handle_result(r)) == child_started(
                old(shared)@,
                old(ids)@,
                *spawner.chunk,
                spawner.natives@,
                spec@,
                link,
            ),
            final(self)@ == old(self)@.with_started(handle_result(r), spec@),
            final(ids)@ == spawned_ids(old(shared)@, old(ids)@),
    {
        match spawner.spawn_linked(
            shared,
            ids,
            spec.function,
            spec.args.as_slice(),
            spec.restart,
            link,
        ) {
            Ok(handle) => {
                self.adopt(handle.id(), spec);
                Ok(handle)
            },
            Err(e) => Err(e),
        }
    }

    /// A flow ended: if it was a child that is to be started again, it is. A
    /// child that cannot be started is given up.
    pub fn child_exited(
        &mut self,
        shared: &mut Shared,
        ids: &mut Ids,
        spawner: &RuntimeSpawner,
        link: u64,
        id: FlowId,
        outcome: &FlowOutcome,
        now: u64,
    )
        ensures
            ({
                let (decided, again) = old(self)@.exited(id.0, outcome@, now);
                match again {
                    None => {
                        &&& final(self)@ == decided
                        &&& final(shared)@ == old(shared)@
                        &&& final(ids)@ == old(ids)@
                    },
                    Some(child) => {
                        let (t, started) = child_started(
                            old(shared)@,
                            old(ids)@,
                            *spawner.chunk,
                            spawner.natives@,
                            child,
                            link,
                        );
                        &&& final(shared)@ == t
                        &&& final(self)@ == decided.with_started(started, child)
                        &&& final(ids)@ == spawned_ids(old(shared)@, old(ids)@)
                    },
                }
            }),
    {
        match self.handle_exit(id, outcome, now) {
            Some(spec) => {
                let _ = self.start_child(shared, ids, spawner, link, spec);
            },
            None => {},
        }
    }

    pub fn live_children(&self) -> (n: usize)
        ensures
            n == self@.children.dom().len(),
    {
        assert(self@.children.dom() =~= self.children@.dom());
        self.children.len()
    }

    pub fn intensity_exceeded(&self) -> (r: bool)
        ensures
            r == self@.intensity_exceeded,
    {
        self.intensity_exceeded
    }

    /// Stop looking after the children. They go on; none is started again.
    pub fn shutdown(&mut self)
        ensures
            final(self)@ == (SupervisorView { stopped: true, ..old(self)@ }),
            forall|id: u64, outcome: OutcomeView, now: u64|
                (#[trigger] final(self)@.exited(id, outcome, now)) == (
                    final(self)@,
                    None::<ChildView>,
                ),
    {
        self.stopped = true;
    }

    /// Count a request for a restart; whether it is one too many.
    fn intensity_hit(&mut self, now: u64) -> (r: bool)
        requires
            !old(self)@.intensity_exceeded,
        ensures
            r == old(self)@.too_many(now),
            final(self)@ == (SupervisorView {
                restart_times: old(self)@.recent(now),
                intensity_exceeded: old(self)@.too_many(now),
                ..old(self)@
            }),
    {
        self.restart_times.push_back(now);
        let start: u64 = if now >= self.config.max_period {
            now - self.config.max_period
        } else {
            0
        };
        let ghost all = self.restart_times@;
        while self.restart_times.len() > 0 && self.restart_times[0] < start
            invariant
                pruned(self.restart_times@, start) == pruned(all, start),
                self.config == old(self).config,
                self.children == old(self).children,
                self.intensity_exceeded == old(self).intensity_exceeded,
                self.stopped == old(self).stopped,
            decreases self.restart_times@.len(),
        {
            let ghost before = self.restart_times@;
            let _ = self.restart_times.pop_front();
            assert(self.restart_times@ =~= before.skip(1));
        }
        if self.restart_times.len() > self.config.max_restarts as usize {
            self.intensity_exceeded = true;
            true
        } else {
            false
        }
    }

    /// Child `id` ended at `now`: the child to start again, if its policy and
    /// the restart limit allow it. A flow that is no child is ignored.
    pub fn handle_exit(&mut self, id: FlowId, outcome: &FlowOutcome, now: u64) -> (r: Option<
        ChildSpec,
    >)
        ensures
            ({
                let (post, again) = old(self)@.exited(id.0, outcome@, now);
                &&& final(self)@ == post
                &&& match r {
                    Some(c) => again == Some(c@),
                    None => again is None,
                }
            }),
    {
        if self.stopped {
            return None;
        }
        let spec = match self.children.remove(&id.0) {
            Some(s) => s,
            None => {
                assert(self@.children =~= old(self)@.children);
                return None;
            },
        };
        assert(self@.children =~= old(self)@.children.remove(id.0));
        if !should_restart(spec.restart, outcome) {
            return None;
        }
        if self.intensity_exceeded || self.intensity_hit(now) {
            return None;
        }
        Some(spec)
    }
}

proof fn pruned_is_recent(times: Seq<u64>, start: u64)
    requires
        forall|i: int, j: int| 0 <= i <= j < times.len() ==> times[i] <= times[j],
    ensures
        forall|i: int| 0 <= i < pruned(times, start).len() ==> pruned(times, start)[i] >= start,
        pruned(times, start).len() <= times.len(),
        forall|i: int|
            0 <= i < times.len() && times[i] >= start ==> pruned(times, start).len() >= times.len()
                - i,
    decreases times.len(),
{
    if times.len() > 0 && times[0] < start {
        let rest = times.skip(1);
        assert forall|i: int, j: int| 0 <= i <= j < rest.len() implies rest[i] <= rest[j] by {
            assert(times[i + 1] <= times[j + 1]);
        }
        pruned_is_recent(rest, start);
        assert forall|i: int| 0 <= i < times.len() && times[i] >= start implies pruned(
            times,
            start,
        ).len() >= times.len() - i by {
            assert(rest[i - 1] == times[i]);
        }
    }
}

/// The restarts are noted in order, and none later than `now`.
pub open spec fn paced(times: Seq<u64>, now: u64) -> bool {
    &&& forall|i: int, j: int| 0 <= i <= j < times.len() ==> times[i] <= times[j]
    &&& forall|i: int| 0 <= i < times.len() ==> #[trigger] times[i] <= now
}

/// How many of the times lie within the last `period` before `now`.
pub open spec fn in_last(times: Seq<u64>, now: u64, period: u64) -> nat {
    times.filter(|t: u64| t + period >= now).len()
}

/// A restart is granted only if the restarts of the last period, this one
/// included, are within the limit, and it is refused only if they are not;
/// once they are not, none is granted ever again. The times stay in order as
/// long as the clock does not run backwards.
pub proof fn restarts_are_limited(s: SupervisorView, id: u64, outcome: OutcomeView, now: u64)
    requires
        paced(s.restart_times, now),
    ensures
        s.intensity_exceeded ==> s.exited(id, outcome, now).1 is None && s.exited(
            id,
            outcome,
            now,
        ).0.intensity_exceeded,
        paced(s.exited(id, outcome, now).0.restart_times, now),
        match found(s.children, id) {
            None => true,
            Some(child) => !s.stopped && !s.intensity_exceeded && wants_restart(
                child.restart,
                outcome,
            ) ==> {
                let granted = in_last(s.restart_times, now, s.config.max_period);
                let (t, again) = s.exited(id, outcome, now);
                &&& again == (if granted + 1 <= s.config.max_restarts {
                    Some(child)
                } else {
                    None
                })
                &&& t.intensity_exceeded == (granted + 1 > s.config.max_restarts)
            },
        },
{
    let all = s.restart_times.push(now);
    let period = s.config.max_period;
    let start = window_start(now, period);
    assert(paced(all, now));
    pruned_is_recent(all, start);
    pruned_is_suffix(all, start);
    pruned_keeps_order(all, start, now);
    pruned_counts(all, now, period);
    reveal(Seq::filter);
    assert(all.drop_last() =~= s.restart_times);
}

/// What is left after pruning is the last period.
proof fn pruned_counts(times: Seq<u64>, now: u64, period: u64)
    requires
        paced(times, now),
    ensures
        pruned(times, window_start(now, period)).len() == in_last(times, now, period),
    decreases times.len(),
{
    let start = window_start(now, period);
    let recent = |t: u64| t + period >= now;
    if times.len() > 0 && times[0] < start {
        let rest = times.skip(1);
        assert forall|i: int, j: int| 0 <= i <= j < rest.len() implies rest[i] <= rest[j] by {
            assert(times[i + 1] <= times[j + 1]);
        }
        assert forall|i: int| 0 <= i < rest.len() implies #[trigger] rest[i] <= now by {
            assert(times[i + 1] <= now);
        }
        pruned_counts(rest, now, period);
        first_is_dropped(times, recent);
    } else {
        assert forall|i: int| 0 <= i < times.len() implies recent(#[trigger] times[i]) by {
            assert(times[0] <= times[i]);
        }
        filter_all(times, recent);
    }
}

/// A filter does not miss a first element that it drops.
proof fn first_is_dropped(times: Seq<u64>, p: spec_fn(u64) -> bool)
    requires
        times.len() > 0,
        !p(times[0]),
    ensures
        times.filter(p) == times.skip(1).filter(p),
    decreases times.len(),
{
    reveal(Seq::filter);
    if times.len() == 1 {
        assert(times.drop_last() =~= Seq::<u64>::empty());
        assert(times.skip(1) =~= Seq::<u64>::empty());
    } else {
        first_is_dropped(times.drop_last(), p);
        assert(times.drop_last().skip(1) =~= times.skip(1).drop_last());
        assert(times.skip(1).last() == times.last());
    }
}

proof fn pruned_keeps_order(times: Seq<u64>, start: u64, now: u64)
    requires
        paced(times, now),
    ensures
        paced(pruned(times, start), now),
    decreases times.len(),
{
    if times.len() > 0 && times[0] < start {
        let rest = times.skip(1);
        assert forall|i: int, j: int| 0 <= i <= j < rest.len() implies rest[i] <= rest[j] by {
            assert(times[i + 1] <= times[j + 1]);
        }
        assert forall|i: int| 0 <= i < rest.len() implies #[trigger] rest[i] <= now by {
            assert(times[i + 1] <= now);
        }
        pruned_keeps_order(rest, start, now);
    }
}

proof fn pruned_is_suffix(times: Seq<u64>, start: u64)
    ensures
        forall|i: int|
            0 <= i < pruned(times, start).len() ==> times.contains(
                #[trigger] pruned(times, start)[i],
            ),
    decreases times.len(),
{
    if times.len() > 0 && times[0] < start {
        pruned_is_suffix(times.skip(1), start);
        assert forall|i: int| 0 <= i < pruned(times, start).len() implies times.contains(
            #[trigger] pruned(times, start)[i],
        ) by {
            let rest = times.skip(1);
            let v = pruned(rest, start)[i];
            assert(rest.contains(v));
            let k = choose|k: int| 0 <= k < rest.len() && rest[k] == v;
            assert(times[k + 1] == v);
        }
    } else {
        assert forall|i: int| 0 <= i < times.len() implies times.contains(#[trigger] times[i]) by {}
    }
}

/// A child is started again only if its policy asks for it: always, or on
/// failure after a failure. A child that is never to be started again, and one
/// that is only after a failure and did not fail, are let go, and no restart is
/// counted. What is started again is the child that ended; the other children
/// stay as they are.
pub proof fn policy_decides(s: SupervisorView, id: u64, outcome: OutcomeView, now: u64)
    ensures
        ({
            let (t, again) = s.exited(id, outcome, now);
            let known = s.children.dom().contains(id);
            let policy = s.children[id].restart;
            &&& again is Some ==> {
                &&& known
                &&& !s.stopped
                &&& !s.intensity_exceeded
                &&& policy == RestartPolicy::Always || (policy == RestartPolicy::OnFailure
                    && outcome is Failed)
                &&& again == Some(s.children[id])
            }
            &&& known && (policy == RestartPolicy::Never || (policy == RestartPolicy::OnFailure
                && outcome is Completed)) ==> {
                &&& again is None
                &&& t.restart_times == s.restart_times
                &&& t.intensity_exceeded == s.intensity_exceeded
            }
            &&& known && !s.stopped ==> !t.children.dom().contains(id)
            &&& forall|x: u64|
                x != id && #[trigger] s.children.dom().contains(x) ==> t.children.dom().contains(x)
                    && t.children[x] == s.children[x]
            &&& forall|x: u64| #[trigger]
                t.children.dom().contains(x) ==> s.children.dom().contains(x)
            &&& t.config == s.config
            &&& t.stopped == s.stopped
            &&& !known || s.stopped ==> t == s && again is None
        }),
{
}

/// Where the policy asks for a restart, it is granted if and only if, with it,
/// no more restarts than the limit lie within the last period. Each request is
/// noted with its time, granted or not.
pub proof fn due_restart_is_granted(s: SupervisorView, id: u64, outcome: OutcomeView, now: u64)
    requires
        paced(s.restart_times, now),
        s.children.dom().contains(id),
        !s.stopped,
        !s.intensity_exceeded,
        s.children[id].restart == RestartPolicy::Always || (s.children[id].restart
            == RestartPolicy::OnFailure && outcome is Failed),
    ensures
        ({
            let (t, again) = s.exited(id, outcome, now);
            let recent = s.restart_times.filter(|at: u64| at + s.config.max_period >= now);
            &&& again == (if recent.len() + 1 <= s.config.max_restarts {
                Some(s.children[id])
            } else {
                None
            })
            &&& t.intensity_exceeded == (recent.len() + 1 > s.config.max_restarts)
            &&& t.restart_times.len() == recent.len() + 1
            &&& t.restart_times.last() == now
        }),
{
    restarts_are_limited(s, id, outcome, now);
    let all = s.restart_times.push(now);
    pruned_counts(all, now, s.config.max_period);
    assert(all.drop_last() =~= s.restart_times);
    reveal(Seq::filter);
    pruned_ends_alike(all, window_start(now, s.config.max_period));
}

proof fn pruned_ends_alike(times: Seq<u64>, start: u64)
    requires
        times.len() > 0,
        times.last() >= start,
    ensures
        pruned(times, start).len() > 0,
        pruned(times, start).last() == times.last(),
    decreases times.len(),
{
    if times[0] < start {
        assert(times.skip(1).last() == times.last());
        pruned_ends_alike(times.skip(1), start);
    }
}

/// A child that was started is under supervision with what it was started with;
/// one that could not be started is not. Nothing else changes.
pub proof fn started_child_is_supervised(
    s: SupervisorView,
    started: Result<FlowId, SpawnErrorView>,
    child: ChildView,
    x: u64,
)
    ensures
        ({
            let t = s.with_started(started, child);
            &&& started matches Ok(id) ==> t.children.dom().contains(id.0) && t.children[id.0] == child
            &&& !(started matches Ok(id) && id.0 == x) ==> (t.children.dom().contains(x)
                <==> s.children.dom().contains(x)) && (s.children.dom().contains(x)
                ==> t.children[x] == s.children[x])
            &&& t.restart_times == s.restart_times
            &&& t.intensity_exceeded == s.intensity_exceeded
            &&& t.stopped == s.stopped
            &&& t.config == s.config
        }),
{
}

/// A child starts with the function, arguments and policy that its description
/// names, may call every native of its table, and reports to its supervisor.
pub proof fn child_starts_as_described(
    s: SharedView,
    ids: IdsView,
    chunk: Chunk,
    natives: Seq<Option<(Seq<char>, NativeFn)>>,
    child: ChildView,
    link: u64,
    k: int,
)
    ensures
        ({
            let (t, r) = child_started(s, ids, chunk, natives, child, link);
            let g = t.ready.last().1;
            &&& r is Err ==> t == s
            &&& r is Ok ==> {
                &&& r == Ok::<_, SpawnErrorView>(FlowId(ids.flow))
                &&& t.directory.dom().contains(ids.flow)
                &&& t.ready.len() == s.ready.len() + 1
                &&& g.id.0 == ids.flow
                &&& g.supervisor == Some(link)
                &&& g.restart_policy == child.restart
                &&& g.vm.chunk == chunk
                &&& g.vm.natives == natives
                &&& g.vm.gate.len() == natives.len()
                &&& 0 <= k < natives.len() ==> g.vm.gate[k]
                &&& g.vm.frames.len() == 1
                &&& g.vm.frames[0].function == child.function
                &&& child.function < chunk.functions@.len()
                &&& g.vm.frames[0].pc == chunk.functions@[child.function as int].entry
                &&& 0 <= k < child.args.len() && k < chunk.functions@[child.function as int].arity
                    ==> g.vm.frames[0].registers[k] == child.args[k]
            }
        }),
{
    spawning_is_exact(
        s,
        ids,
        chunk,
        natives,
        open_gate(natives),
        child.function,
        child.args,
        child.restart,
        Some(link),
    );
}

} // verus!
