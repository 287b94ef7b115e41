//! What the host asks of a runtime, and what comes of it.

use vstd::prelude::*;

use super::capability::{CapId, CapRights};
use super::effects::{grants, one_more_cap, only_caps_change};
use super::error::LifecycleError;
use super::link::LinkId;
use super::model::{fired, kill_requested, SharedView};
use super::monitor::{FlowExitReason, MonitorRef};
use super::process::{next_count, FlowId, IdsView};
use super::registry::{entry_of_a_name, name_cap, name_index, name_leads_to_its_entry, NameView};
use super::runtime::{absent, unrelatable, TimerTurn, TIMER_IDLE_MS};
use super::timer::TimerView;
use crate::bytecode::cap::rights_are_bits;

verus! {

/// A capability for a live flow, with these rights.
pub open spec fn cap_made(s: SharedView, ids: IdsView, flow: FlowId, rights: CapRights) -> (
    SharedView,
    IdsView,
    Result<CapId, LifecycleError>,
) {
    match absent(s, flow) {
        Some(e) => (s, ids, Err(e)),
        None => (
            SharedView { caps: s.caps.minted(ids.cap, flow, rights), ..s },
            ids.cap_drawn(),
            Ok(CapId(ids.cap)),
        ),
    }
}

/// A kill by a flow that holds a capability for itself with the right to kill.
pub open spec fn admin_killed(s: SharedView, holder: FlowId, cap: CapId, victim: FlowId) -> (
    SharedView,
    Result<(), LifecycleError>,
) {
    let permitted = s.caps.resolved(cap.0) matches Some(e) && e.flow == holder && e.rights.includes(
        CapRights::admin(),
    );
    if !permitted {
        (s, Err(LifecycleError::InvalidCapability))
    } else {
        killed(s, victim)
    }
}

/// A kill by the host.
pub open spec fn killed(s: SharedView, victim: FlowId) -> (SharedView, Result<(), LifecycleError>) {
    match absent(s, victim) {
        Some(e) => (s, Err(e)),
        None => (kill_requested(s, victim, FlowExitReason::Killed), Ok(())),
    }
}

/// A watch of `owner` on `target`.
pub open spec fn watch_made(s: SharedView, owner: FlowId, target: FlowId) -> (
    SharedView,
    Result<MonitorRef, LifecycleError>,
) {
    match unrelatable(s, owner, target) {
        Some(e) => (s, Err(e)),
        None => (
            SharedView { monitors: s.monitors.created(owner, target), ..s },
            Ok(MonitorRef(s.monitors.next)),
        ),
    }
}

pub open spec fn watch_dropped(s: SharedView, owner: FlowId, monitor: MonitorRef) -> (
    SharedView,
    Result<(), LifecycleError>,
) {
    match absent(s, owner) {
        Some(e) => (s, Err(e)),
        None => (
            SharedView { monitors: s.monitors.dropped(owner, monitor), ..s },
            if s.monitors.owns(owner, monitor) {
                Ok(())
            } else {
                Err(LifecycleError::NoSuchRelation)
            },
        ),
    }
}

/// A link between two flows.
pub open spec fn link_made(s: SharedView, a: FlowId, b: FlowId) -> (
    SharedView,
    Result<LinkId, LifecycleError>,
) {
    match unrelatable(s, a, b) {
        Some(e) => (s, Err(e)),
        None => (SharedView { links: s.links.linked(a, b), ..s }, Ok(LinkId(s.links.next))),
    }
}

pub open spec fn link_dropped(s: SharedView, owner: FlowId, link: LinkId) -> (
    SharedView,
    Result<(), LifecycleError>,
) {
    match absent(s, owner) {
        Some(e) => (s, Err(e)),
        None => (
            SharedView { links: s.links.dropped(owner, link), ..s },
            if s.links.owns(owner, link) {
                Ok(())
            } else {
                Err(LifecycleError::NoSuchRelation)
            },
        ),
    }
}

/// A name for a capability.
pub open spec fn name_bound(s: SharedView, name: Seq<char>, cap: CapId) -> (
    SharedView,
    Result<(), LifecycleError>,
) {
    match s.caps.resolved(cap.0) {
        None => (s, Err(LifecycleError::InvalidCapability)),
        Some(e) => if !s.alive(e.flow) {
            (s, Err(LifecycleError::NoSuchFlow(e.flow)))
        } else if name_cap(s.registry, name) is Some {
            (s, Err(LifecycleError::NameTaken))
        } else {
            (
                SharedView { registry: s.registry.push(NameView { name, cap, flow: e.flow }), ..s },
                Ok(()),
            )
        },
    }
}

/// The end of a name, and whether it was bound.
pub open spec fn name_unbound(s: SharedView, name: Seq<char>) -> (SharedView, bool) {
    if name_cap(s.registry, name) is Some {
        (
            SharedView {
                registry: s.registry.remove(name_index(s.registry, name, 0) as int),
                ..s
            },
            true,
        )
    } else {
        (s, false)
    }
}

/// A turn of the timer.
pub open spec fn timer_turned(s: SharedView, now: u64) -> (SharedView, TimerTurn) {
    if s.timer.shutdown {
        (s, TimerTurn::Stop)
    } else if s.timer.entries.len() == 0 {
        (s, TimerTurn::Sleep(TIMER_IDLE_MS))
    } else if s.timer.entries[0].deadline > now {
        (s, TimerTurn::Sleep((s.timer.entries[0].deadline - now) as u64))
    } else {
        (
            fired(
                SharedView {
                    timer: TimerView { entries: s.timer.entries.skip(1), ..s.timer },
                    ..s
                },
                s.timer.entries[0],
            ),
            TimerTurn::Fired,
        )
    }
}

/// A capability that the host makes reaches the flow that it is for, has the
/// rights asked for and no others, and is new; nothing else changes. None is made
/// for a flow that is not alive.
pub proof fn made_capability_reaches_its_flow(
    s: SharedView,
    ids: IdsView,
    flow: FlowId,
    rights: CapRights,
)
    ensures
        ({
            let (t, after, r) = cap_made(s, ids, flow, rights);
            &&& s.directory.dom().contains(flow.0) ==> {
                &&& r == Ok::<CapId, LifecycleError>(CapId(ids.cap))
                &&& one_more_cap(s, t, ids.cap, flow, rights.bits)
                &&& only_caps_change(s, t)
                &&& next_count(ids.cap, after.cap)
                &&& after.flow == ids.flow
            }
            &&& !s.directory.dom().contains(flow.0) ==> r == Err::<CapId, _>(
                LifecycleError::NoSuchFlow(flow),
            ) && t == s && after == ids
        }),
{
}

/// The host kills a flow that is alive, and reports one that is not. A flow may
/// do so only through a capability for itself that grants the right to kill.
pub proof fn killing_takes_the_right(
    s: SharedView,
    holder: FlowId,
    cap: CapId,
    victim: FlowId,
)
    ensures
        ({
            let (t, r) = admin_killed(s, holder, cap, victim);
            let permitted = grants(s, cap.0, 3) && s.caps.entries[cap.0].flow == holder;
            &&& !permitted ==> r == Err::<(), _>(LifecycleError::InvalidCapability) && t == s
            &&& permitted ==> (t, r) == killed(s, victim)
        }),
        s.directory.dom().contains(victim.0) ==> killed(s, victim) == (
            kill_requested(s, victim, FlowExitReason::Killed),
            Ok::<(), LifecycleError>(()),
        ),
        !s.directory.dom().contains(victim.0) ==> killed(s, victim) == (
            s,
            Err::<(), _>(LifecycleError::NoSuchFlow(victim)),
        ),
{
    if s.caps.entries.dom().contains(cap.0) {
        rights_are_bits(s.caps.entries[cap.0].rights, 3);
    }
}

/// A watch or link that the host makes joins the two flows it is for, under the
/// number that is handed back, and nothing else changes. None is made from a flow
/// to itself or where one of the two is not alive.
pub proof fn made_relation_joins_the_two(s: SharedView, a: FlowId, b: FlowId)
    ensures
        ({
            let (t, r) = watch_made(s, a, b);
            let (u, q) = link_made(s, a, b);
            let possible = a != b && s.directory.dom().contains(a.0) && s.directory.dom().contains(
                b.0,
            );
            &&& r is Ok <==> possible
            &&& q is Ok <==> possible
            &&& !possible ==> t == s && u == s
            &&& a == b ==> r == Err::<MonitorRef, _>(LifecycleError::SelfRelation) && q == Err::<
                LinkId,
                _,
            >(LifecycleError::SelfRelation)
            &&& possible ==> {
                &&& t.monitors.entries.len() == s.monitors.entries.len() + 1
                &&& t.monitors.entries.drop_last() == s.monitors.entries
                &&& t.monitors.entries.last().owner == a
                &&& t.monitors.entries.last().target == b
                &&& r == Ok::<_, LifecycleError>(t.monitors.entries.last().monitor)
                &&& t.monitors.entries.last().monitor.0 == s.monitors.next
                &&& next_count(s.monitors.next, t.monitors.next)
                &&& t == (SharedView { monitors: t.monitors, ..s })
                &&& u.links.entries.len() == s.links.entries.len() + 1
                &&& u.links.entries.drop_last() == s.links.entries
                &&& u.links.entries.last().a == a
                &&& u.links.entries.last().b == b
                &&& q == Ok::<_, LifecycleError>(u.links.entries.last().link)
                &&& u.links.entries.last().link.0 == s.links.next
                &&& next_count(s.links.next, u.links.next)
                &&& u == (SharedView { links: u.links, ..s })
            }
        }),
{
}

/// The host drops a watch or a link only for a flow that is alive and has it:
/// then it is gone, and every other stays.
pub proof fn dropped_relation_is_gone(
    s: SharedView,
    owner: FlowId,
    monitor: MonitorRef,
    link: LinkId,
)
    ensures
        ({
            let (t, r) = watch_dropped(s, owner, monitor);
            let (u, q) = link_dropped(s, owner, link);
            &&& !s.directory.dom().contains(owner.0) ==> {
                &&& t == s && u == s
                &&& r == Err::<(), _>(LifecycleError::NoSuchFlow(owner)) && q == r
            }
            &&& s.directory.dom().contains(owner.0) ==> {
                &&& t.monitors == s.monitors.dropped(owner, monitor)
                &&& t == (SharedView { monitors: t.monitors, ..s })
                &&& s.monitors.owns(owner, monitor) ==> r is Ok
                &&& !s.monitors.owns(owner, monitor) ==> r == Err::<(), _>(
                    LifecycleError::NoSuchRelation,
                )
                &&& u.links == s.links.dropped(owner, link)
                &&& u == (SharedView { links: u.links, ..s })
                &&& s.links.owns(owner, link) ==> q is Ok
                &&& !s.links.owns(owner, link) ==> q == Err::<(), _>(
                    LifecycleError::NoSuchRelation,
                )
            }
        }),
{
}

/// A name is bound to a capability that is in force, for a flow that is alive, if
/// no entry bears the name yet; it then leads to that capability, belongs to the
/// flow behind it, and every other name leads where it led.
pub proof fn bound_name_leads_to_its_capability(
    s: SharedView,
    name: Seq<char>,
    cap: CapId,
    k: int,
)
    ensures
        ({
            let (t, r) = name_bound(s, name, cap);
            let flow = s.caps.entries[cap.0].flow;
            let known = s.caps.entries.dom().contains(cap.0);
            &&& r is Err ==> t == s
            &&& !known ==> r == Err::<(), _>(LifecycleError::InvalidCapability)
            &&& known && !s.directory.dom().contains(flow.0) ==> r == Err::<(), _>(
                LifecycleError::NoSuchFlow(flow),
            )
            &&& 0 <= k < s.registry.len() && s.registry[k].name == name ==> r is Err
            &&& r == Err::<(), _>(LifecycleError::NameTaken) ==> exists|i: int|
                0 <= i < s.registry.len() && (#[trigger] s.registry[i]).name == name
            &&& r matches Err(e) ==> !known || !s.directory.dom().contains(flow.0) || e
                == LifecycleError::NameTaken
            &&& r is Ok ==> {
                &&& t.registry.len() == s.registry.len() + 1
                &&& t.registry.drop_last() == s.registry
                &&& t.registry.last().name == name
                &&& t.registry.last().cap == cap
                &&& t.registry.last().flow == flow
                &&& t == (SharedView { registry: t.registry, ..s })
            }
        }),
{
    if 0 <= k < s.registry.len() {
        name_leads_to_its_entry(s.registry, name, k);
    }
    if s.registry.len() > 0 {
        name_leads_to_its_entry(s.registry, name, 0);
    }
}

/// To unbind a name takes away the entry that it led to, and no other; a name
/// that no entry bears is reported as such.
pub proof fn unbinding_takes_one_entry(s: SharedView, name: Seq<char>, k: int)
    requires
        0 <= k < s.registry.len(),
    ensures
        ({
            let (t, was) = name_unbound(s, name);
            &&& !was ==> t == s && s.registry[k].name != name
            &&& was ==> {
                &&& t.registry.len() == s.registry.len() - 1
                &&& t == (SharedView { registry: t.registry, ..s })
                &&& s.registry[k].name != name ==> t.registry.contains(s.registry[k])
                &&& exists|i: int|
                    0 <= i < s.registry.len() && (#[trigger] s.registry[i]).name == name
                        && t.registry == s.registry.take(i) + s.registry.skip(i + 1)
            }
        }),
{
    name_leads_to_its_entry(s.registry, name, k);
    entry_of_a_name(s.registry, name);
    let (t, was) = name_unbound(s, name);
    if was {
        let at = name_index(s.registry, name, 0) as int;
        assert(s.registry[at].name == name);
        assert(t.registry =~= s.registry.take(at) + s.registry.skip(at + 1));
        if s.registry[k].name != name {
            assert(t.registry[if k < at {
                k
            } else {
                k - 1
            }] == s.registry[k]);
        }
    }
}

/// The timer does nothing before the first deadline, and then sleeps no longer
/// than until then; at the deadline, and after it, it does what is due first and
/// takes that off the list. Nothing is done after the stop.
pub proof fn timer_keeps_its_deadlines(s: SharedView, now: u64)
    ensures
        ({
            let (t, turn) = timer_turned(s, now);
            &&& turn is Stop <==> s.timer.shutdown
            &&& turn is Fired <==> !s.timer.shutdown && s.timer.entries.len() > 0
                && s.timer.entries[0].deadline <= now
            &&& !(turn is Fired) ==> t == s
            &&& turn matches TimerTurn::Sleep(ms) ==> ms > 0 && (s.timer.entries.len() > 0
                ==> now + ms == s.timer.entries[0].deadline)
            &&& turn is Fired ==> {
                let rest = SharedView {
                    timer: TimerView { entries: s.timer.entries.drop_first(), ..s.timer },
                    ..s
                };
                t == fired(rest, s.timer.entries[0])
            }
        }),
{
    if s.timer.entries.len() > 0 {
        assert(s.timer.entries.skip(1) =~= s.timer.entries.drop_first());
    }
}

} // verus!
