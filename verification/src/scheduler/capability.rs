//! The table of capabilities.
//!
//! A capability is an opaque handle that only the runtime mints. Bytecode
//! reaches a flow through one and in no other way: guessing a number grants
//! nothing, since every use resolves the handle here.

use std::collections::HashMap;

use vstd::prelude::*;
use vstd::std_specs::iter::IteratorSpec;

use super::process::{FlowId, IdSource};
use crate::text::{dec, push_dec};

pub use crate::bytecode::cap::CapRights;

verus! {

broadcast use vstd::std_specs::hash::group_hash_axioms;

/// Handle of a capability. 0 stands for none and is never minted.
#[derive(Clone, Copy, Debug, PartialEq, Eq, Hash, Structural)]
pub struct CapId(pub u64);

impl CapId {
    pub fn as_u64(self) -> (raw: u64)
        ensures
            raw == self.0,
    {
        self.0
    }

    pub open spec fn spec_text(self) -> Seq<char> {
        "cap#"@ + dec(self.0 as nat)
    }

    pub fn to_text(&self) -> (s: String)
        ensures
            s@ == self.spec_text(),
    {
        let mut s = String::from_str("cap#");
        push_dec(&mut s, self.0);
        s
    }
}

/// What a capability grants.
#[derive(Clone, Copy, Debug, PartialEq, Eq, Structural)]
pub struct CapEntry {
    /// The flow that it reaches.
    pub flow: FlowId,
    pub rights: CapRights,
}

/// The table as a mathematical value.
#[verifier::ext_equal]
pub struct CapTableView {
    pub entries: Map<u64, CapEntry>,
}

impl CapTableView {
    pub open spec fn resolved(self, id: u64) -> Option<CapEntry> {
        if self.entries.dom().contains(id) {
            Some(self.entries[id])
        } else {
            None
        }
    }

    /// With capability `id`.
    pub open spec fn minted(self, id: u64, flow: FlowId, rights: CapRights) -> CapTableView {
        CapTableView { entries: self.entries.insert(id, CapEntry { flow, rights }) }
    }

    /// Without the capabilities that reach `flow`.
    pub open spec fn without_target(self, flow: FlowId) -> CapTableView {
        CapTableView {
            entries: self.entries.restrict(
                Set::new(|id: u64| self.entries.dom().contains(id) && self.entries[id].flow != flow),
            ),
        }
    }

    /// Every handle in the table was handed out: none is 0 and none is still
    /// to come.
    pub open spec fn handed_out(self, next: u64) -> bool {
        forall|id: u64| #[trigger] self.entries.dom().contains(id) ==> 0 < id < next
    }
}

/// Which flow each capability reaches, and with which rights.
#[derive(Debug)]
pub struct CapTable {
    entries: HashMap<u64, CapEntry>,
}

impl View for CapTable {
    type V = CapTableView;

    closed spec fn view(&self) -> CapTableView {
        CapTableView { entries: self.entries@ }
    }
}

impl CapTable {
    pub fn new() -> (t: CapTable)
        ensures
            t@ == (CapTableView { entries: Map::empty() }),
    {
        CapTable { entries: HashMap::new() }
    }

    /// A new capability for `flow`, with a handle from the source that all
    /// tables of the process share.
    pub fn mint(&mut self, ids: &mut IdSource, flow: FlowId, rights: CapRights) -> (id: CapId)
        ensures
            id.0 == old(ids).peek(),
            final(ids).peek() == old(ids).peek().wrapping_add(1),
            final(self)@ == old(self)@.minted(id.0, flow, rights),
    {
        let id: u64 = ids.fresh();
        self.entries.insert(id, CapEntry { flow, rights });
        CapId(id)
    }

    /// What the capability grants; `None` if it is unknown or revoked.
    pub fn resolve(&self, id: CapId) -> (r: Option<CapEntry>)
        ensures
            r == self@.resolved(id.0),
    {
        match self.entries.get(&id.0) {
            Some(e) => Some(*e),
            None => None,
        }
    }

    /// Revoke every capability that reaches `flow`.
    pub fn revoke_target(&mut self, flow: FlowId)
        ensures
            final(self)@ == old(self)@.without_target(flow),
    {
        let mut kept: HashMap<u64, CapEntry> = HashMap::new();
        let ghost all = self.entries@;
        for id in it: self.entries.keys()
            invariant
                all == self.entries@,
                it.seq().unref().to_set() == all.dom(),
                forall|k: u64| #[trigger]
                    kept@.dom().contains(k) ==> all.dom().contains(k) && kept@[k] == all[k]
                        && all[k].flow != flow,
                forall|j: int|
                    0 <= j < it.index() && all[*it.seq()[j]].flow != flow ==> kept@.dom().contains(
                        #[trigger] *it.seq()[j],
                    ),
        {
            assert(it.seq().unref()[it.index()] == *id);
            assert(it.seq().unref().to_set().contains(*id));
            match self.entries.get(id) {
                Some(e) => {
                    if e.flow.0 != flow.0 {
                        kept.insert(*id, *e);
                    }
                },
                None => {},
            }
        }
        proof {
            let keys = self.entries.keys();
            assert forall|k: u64| all.dom().contains(k) && all[k].flow != flow implies #[trigger]
                kept@.dom().contains(k) by {
                assert(keys.remaining().unref().to_set().contains(k));
            }
            assert(kept@ =~= old(self)@.without_target(flow).entries);
        }
        self.entries = kept;
    }
}

impl Default for CapTable {
    fn default() -> (t: CapTable)
        ensures
            t@ == (CapTableView { entries: Map::empty() }),
    {
        CapTable::new()
    }
}

/// A minted capability resolves to what it was minted for, is not 0, resolved
/// to nothing before, and disturbs no other.
pub proof fn minted_capability_resolves(
    t: CapTableView,
    next: u64,
    flow: FlowId,
    rights: CapRights,
    other: u64,
)
    requires
        t.handed_out(next),
        0 < next < u64::MAX,
    ensures
        t.minted(next, flow, rights).handed_out(next.wrapping_add(1)),
        t.resolved(next) is None,
        t.minted(next, flow, rights).resolved(next) == Some(CapEntry { flow, rights }),
        t.minted(next, flow, rights).resolved(0) is None,
        other != next ==> t.minted(next, flow, rights).resolved(other) == t.resolved(other),
{
}

/// A handle that was minted into another table, or into none, does not resolve
/// in this one, now or later: not when it is drawn, and not after this table
/// minted from the same source or lost a flow.
pub proof fn foreign_capability_never_resolves(
    t: CapTableView,
    next: u64,
    foreign: u64,
    later: u64,
    flow: FlowId,
    rights: CapRights,
    gone: FlowId,
)
    requires
        t.handed_out(next),
        later > foreign,
    ensures
        foreign >= next ==> t.resolved(foreign) is None,
        t.resolved(foreign) is None ==> t.minted(later, flow, rights).resolved(foreign) is None,
        t.resolved(foreign) is None ==> t.without_target(gone).resolved(foreign) is None,
{
}

/// No handle is in two tables.
pub open spec fn apart(a: CapTableView, b: CapTableView) -> bool {
    forall|id: u64| !(#[trigger] a.entries.dom().contains(id) && b.entries.dom().contains(id))
}

/// Tables that mint from one source stay apart: what resolves in one does not
/// resolve in the other.
pub proof fn tables_stay_apart(
    a: CapTableView,
    b: CapTableView,
    next: u64,
    flow: FlowId,
    rights: CapRights,
    gone: FlowId,
    id: u64,
)
    requires
        a.handed_out(next),
        b.handed_out(next),
        apart(a, b),
        0 < next < u64::MAX,
    ensures
        a.minted(next, flow, rights).handed_out(next.wrapping_add(1)),
        b.handed_out(next.wrapping_add(1)),
        apart(a.minted(next, flow, rights), b),
        apart(a.without_target(gone), b),
        a.minted(next, flow, rights).resolved(id) is Some ==> b.resolved(id) is None,
{
}

/// After a revocation no capability reaches the flow, and every capability for
/// another flow is as it was.
pub proof fn revocation_is_exact(t: CapTableView, flow: FlowId, id: u64, next: u64)
    ensures
        t.without_target(flow).resolved(id) == (match t.resolved(id) {
            Some(e) => if e.flow == flow {
                None
            } else {
                Some(e)
            },
            None => None,
        }),
        t.handed_out(next) ==> t.without_target(flow).handed_out(next),
{
}

} // verus!
