//! Names for capabilities.

use vstd::prelude::*;

use super::departures::filter_is_exact;
use super::capability::CapId;
use super::error::LifecycleError;
use super::process::FlowId;
use crate::seqs::{filter_ends, filter_step};
use crate::vm::native::str_eq;

verus! {

/// One name.
#[derive(Debug)]
pub struct NameEntry {
    pub name: String,
    pub cap: CapId,
    /// The flow that the capability reaches.
    pub flow: FlowId,
}

/// A name as a mathematical value.
#[verifier::ext_equal]
pub struct NameView {
    pub name: Seq<char>,
    pub cap: CapId,
    pub flow: FlowId,
}

impl View for NameEntry {
    type V = NameView;

    open spec fn view(&self) -> NameView {
        NameView { name: self.name@, cap: self.cap, flow: self.flow }
    }
}

pub open spec fn names_view(entries: Seq<NameEntry>) -> Seq<NameView> {
    entries.map_values(|e: NameEntry| e@)
}

/// Position of a name, searching from `i`; the number of names if nowhere.
pub open spec fn name_index(names: Seq<NameView>, name: Seq<char>, i: nat) -> nat
    decreases names.len() - i,
{
    if i >= names.len() {
        names.len()
    } else if names[i as int].name == name {
        i
    } else {
        name_index(names, name, i + 1)
    }
}

/// The capability that a name is bound to.
pub open spec fn name_cap(names: Seq<NameView>, name: Seq<char>) -> Option<CapId> {
    let i = name_index(names, name, 0);
    if i < names.len() {
        Some(names[i as int].cap)
    } else {
        None
    }
}

/// The names without those of a flow.
pub open spec fn names_without(names: Seq<NameView>, flow: FlowId) -> Seq<NameView> {
    names.filter(|e: NameView| e.flow != flow)
}

proof fn name_index_bounds(names: Seq<NameView>, name: Seq<char>, i: nat)
    requires
        i <= names.len(),
    ensures
        i <= name_index(names, name, i) <= names.len(),
        name_index(names, name, i) < names.len() ==> names[name_index(names, name, i) as int].name
            == name,
        forall|j: int| i <= j < name_index(names, name, i) ==> names[j].name != name,
    decreases names.len() - i,
{
    if i < names.len() && names[i as int].name != name {
        name_index_bounds(names, name, i + 1);
    }
}

/// Names of a runtime, in the order in which they were bound.
#[derive(Debug)]
pub struct RegistryStore {
    entries: Vec<NameEntry>,
}

impl View for RegistryStore {
    type V = Seq<NameView>;

    closed spec fn view(&self) -> Seq<NameView> {
        names_view(self.entries@)
    }
}

impl RegistryStore {
    pub fn new() -> (s: RegistryStore)
        ensures
            s@ == Seq::<NameView>::empty(),
    {
        let s = RegistryStore { entries: Vec::new() };
        assert(s@ =~= Seq::<NameView>::empty());
        s
    }

    fn find(&self, name: &str) -> (i: usize)
        ensures
            i == name_index(self@, name@, 0),
            i <= self.entries@.len(),
    {
        let mut i: usize = 0;
        while i < self.entries.len()
            invariant
                i <= self.entries@.len(),
                self@ == names_view(self.entries@),
                name_index(self@, name@, 0) == name_index(self@, name@, i as nat),
            decreases self.entries@.len() - i,
        {
            assert(self@[i as int] == self.entries@[i as int]@);
            if str_eq(self.entries[i].name.as_str(), name) {
                return i;
            }
            i = i + 1;
        }
        i
    }

    /// Bind a name that is not bound yet.
    pub fn register(&mut self, name: &str, cap: CapId, flow: FlowId) -> (r: Result<
        (),
        LifecycleError,
    >)
        ensures
            name_cap(old(self)@, name@) is Some ==> r == Err::<(), LifecycleError>(
                LifecycleError::NameTaken,
            ) && final(self)@ == old(self)@,
            name_cap(old(self)@, name@) is None ==> r == Ok::<(), LifecycleError>(())
                && final(self)@ == old(self)@.push(NameView { name: name@, cap, flow }),
    {
        if self.find(name) < self.entries.len() {
            return Err(LifecycleError::NameTaken);
        }
        let entry = NameEntry { name: name.to_owned(), cap, flow };
        self.entries.push(entry);
        assert(self@ =~= old(self)@.push(NameView { name: name@, cap, flow }));
        Ok(())
    }

    /// The capability that a name is bound to.
    pub fn whereis(&self, name: &str) -> (r: Option<CapId>)
        ensures
            r == name_cap(self@, name@),
    {
        let i: usize = self.find(name);
        if i < self.entries.len() {
            Some(self.entries[i].cap)
        } else {
            None
        }
    }

    /// Unbind a name; `false` if it was not bound.
    pub fn unregister(&mut self, name: &str) -> (r: bool)
        ensures
            r == (name_cap(old(self)@, name@) is Some),
            final(self)@ == (if r {
                old(self)@.remove(name_index(old(self)@, name@, 0) as int)
            } else {
                old(self)@
            }),
    {
        let i: usize = self.find(name);
        if i < self.entries.len() {
            let _ = self.entries.remove(i);
            assert(self@ =~= old(self)@.remove(i as int));
            true
        } else {
            false
        }
    }

    /// Unbind all names of a flow.
    pub fn unregister_flow(&mut self, flow: FlowId)
        ensures
            final(self)@ == names_without(old(self)@, flow),
    {
        let mut kept: Vec<NameEntry> = Vec::new();
        let mut all: Vec<NameEntry> = Vec::new();
        std::mem::swap(&mut all, &mut self.entries);
        let ghost before = names_view(all@);
        let ghost pred = |e: NameView| e.flow != flow;
        let mut rest = all;
        let ghost total = rest@.len();
        proof {
            filter_ends(before, pred);
        }
        while rest.len() > 0
            invariant
                pred == (|e: NameView| e.flow != flow),
                before.len() == total,
                rest@.len() <= total,
                names_view(rest@) == before.skip(total - rest@.len()),
                names_view(kept@) == before.take(total - rest@.len()).filter(pred),
            decreases rest@.len(),
        {
            let ghost at = total - rest@.len();
            let ghost left = rest@;
            let entry = rest.remove(0);
            proof {
                filter_step(before, pred, at);
                assert(names_view(left)[0] == before.skip(at)[0]);
                assert forall|j: int| 0 <= j < rest@.len() implies #[trigger] names_view(rest@)[j]
                    == before.skip(at + 1)[j] by {
                    assert(rest@[j] == left[j + 1]);
                    assert(names_view(left)[j + 1] == before.skip(at)[j + 1]);
                }
                assert(names_view(rest@) =~= before.skip(at + 1));
            }
            if entry.flow.0 != flow.0 {
                let ghost so_far = kept@;
                kept.push(entry);
                assert(names_view(kept@) =~= names_view(so_far).push(entry@));
            }
        }
        proof {
            filter_ends(before, pred);
        }
        self.entries = kept;
    }
}

/// A name that was just bound is found, and others are found as before.
pub proof fn registered_name_is_found(names: Seq<NameView>, entry: NameView, other: Seq<char>)
    requires
        name_cap(names, entry.name) is None,
    ensures
        name_cap(names.push(entry), entry.name) == Some(entry.cap),
        other != entry.name ==> name_cap(names.push(entry), other) == name_cap(names, other),
{
    push_index(names, entry, entry.name, 0);
    push_index(names, entry, other, 0);
}

proof fn push_index(names: Seq<NameView>, entry: NameView, name: Seq<char>, i: nat)
    requires
        i <= names.len(),
    ensures
        name_index(names.push(entry), name, i) == (if name_index(names, name, i) < names.len() {
            name_index(names, name, i)
        } else if entry.name == name {
            names.len()
        } else {
            names.len() + 1
        }),
    decreases names.len() - i,
{
    name_index_bounds(names, name, i);
    if i < names.len() {
        if names[i as int].name != name {
            push_index(names, entry, name, i + 1);
        }
    } else {
        reveal_with_fuel(name_index, 2);
    }
}

/// A name leads to the capability of the first entry that bears it, and to none
/// if no entry does.
pub proof fn name_leads_to_its_entry(names: Seq<NameView>, name: Seq<char>, k: int)
    requires
        0 <= k < names.len(),
    ensures
        name_cap(names, name) is None ==> names[k].name != name,
        name_cap(names, name) matches Some(cap) ==> exists|i: int|
            0 <= i < names.len() && (#[trigger] names[i]).name == name && names[i].cap == cap,
        names[k].name == name && (forall|j: int| 0 <= j < k ==> (#[trigger] names[j]).name != name)
            ==> name_cap(names, name) == Some(names[k].cap) && name_index(names, name, 0) == k,
{
    name_index_bounds(names, name, 0);
}

/// Where every name is bound once, a name that is unbound leads nowhere, and
/// every other leads where it led.
pub proof fn unbound_name_leads_nowhere(names: Seq<NameView>, name: Seq<char>, other: Seq<char>)
    requires
        name_cap(names, name) is Some,
        forall|i: int, j: int|
            0 <= i < j < names.len() ==> (#[trigger] names[i]).name != (#[trigger] names[j]).name,
    ensures
        name_cap(names.remove(name_index(names, name, 0) as int), name) is None,
        other != name ==> name_cap(names.remove(name_index(names, name, 0) as int), other)
            == name_cap(names, other),
{
    let at = name_index(names, name, 0) as int;
    let rest = names.remove(at);
    name_index_bounds(names, name, 0);
    name_index_bounds(names, other, 0);
    name_index_bounds(rest, name, 0);
    name_index_bounds(rest, other, 0);
    let a = name_index(names, other, 0) as int;
    let b = name_index(rest, other, 0) as int;
    if name_index(rest, name, 0) < rest.len() {
        let i = name_index(rest, name, 0) as int;
        assert(rest[i] == names[if i < at {
            i
        } else {
            i + 1
        }]);
    }
    if other != name && a < names.len() {
        assert(rest[if a < at {
            a
        } else {
            a - 1
        }] == names[a]);
    }
    if other != name && b < rest.len() {
        assert(rest[b] == names[if b < at {
            b
        } else {
            b + 1
        }]);
    }
}

/// When a flow ends its names go, and those of others stay.
pub proof fn names_go_with_their_flow(names: Seq<NameView>, flow: FlowId, e: NameView)
    ensures
        names_without(names, flow).contains(e) <==> names.contains(e) && e.flow != flow,
{
    filter_is_exact(names, |e: NameView| e.flow != flow, e);
}

/// A name that leads somewhere is borne by the entry at its place.
pub proof fn entry_of_a_name(names: Seq<NameView>, name: Seq<char>)
    ensures
        name_cap(names, name) is Some <==> name_index(names, name, 0) < names.len(),
        name_cap(names, name) is Some ==> names[name_index(names, name, 0) as int].name == name,
{
    name_index_bounds(names, name, 0);
}

} // verus!
