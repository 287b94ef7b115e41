//! Two-way links: the abnormal end of one flow ends the other.

use vstd::prelude::*;

use super::error::LifecycleError;
use super::process::{FlowId, IdSource};
use crate::seqs::{filter_ends, filter_step};

verus! {

/// Identity of a link.
#[derive(Clone, Copy, Debug, PartialEq, Eq, Structural)]
pub struct LinkId(pub u64);

impl LinkId {
    pub fn as_u64(self) -> (raw: u64)
        ensures
            raw == self.0,
    {
        self.0
    }

    pub fn from_u64(raw: u64) -> (l: LinkId)
        ensures
            l.0 == raw,
    {
        LinkId(raw)
    }
}

/// One link.
#[derive(Clone, Copy, Debug, PartialEq, Eq, Structural)]
pub struct LinkEntry {
    pub link: LinkId,
    pub a: FlowId,
    pub b: FlowId,
}

impl LinkEntry {
    pub open spec fn joins(self, flow: FlowId) -> bool {
        self.a == flow || self.b == flow
    }

    /// The end that is not `flow`.
    pub open spec fn peer_of(self, flow: FlowId) -> FlowId {
        if self.a == flow {
            self.b
        } else {
            self.a
        }
    }
}

/// The links as a mathematical value.
#[verifier::ext_equal]
pub struct LinksView {
    /// In the order in which they were created.
    pub entries: Seq<LinkEntry>,
    pub next: u64,
}

impl LinksView {
    pub open spec fn linked(self, a: FlowId, b: FlowId) -> LinksView {
        LinksView {
            entries: self.entries.push(LinkEntry { link: LinkId(self.next), a, b }),
            next: self.next.wrapping_add(1),
        }
    }

    /// Whether `owner` is an end of this link.
    pub open spec fn owns(self, owner: FlowId, link: LinkId) -> bool {
        exists|i: int|
            0 <= i < self.entries.len() && (#[trigger] self.entries[i]).link == link
                && self.entries[i].joins(owner)
    }

    pub open spec fn dropped(self, owner: FlowId, link: LinkId) -> LinksView {
        LinksView {
            entries: self.entries.filter(|e: LinkEntry| !(e.link == link && e.joins(owner))),
            ..self
        }
    }

    pub open spec fn without(self, flow: FlowId) -> LinksView {
        LinksView { entries: self.entries.filter(|e: LinkEntry| !e.joins(flow)), ..self }
    }

    /// The links of a flow and the flows at their other ends, oldest first.
    pub open spec fn peers(self, flow: FlowId) -> Seq<(LinkId, FlowId)> {
        self.entries.filter(|e: LinkEntry| e.joins(flow)).map_values(
            |e: LinkEntry| (e.link, e.peer_of(flow)),
        )
    }
}

/// All links of a runtime.
#[derive(Debug)]
pub struct LinkStore {
    entries: Vec<LinkEntry>,
    ids: IdSource,
}

impl View for LinkStore {
    type V = LinksView;

    closed spec fn view(&self) -> LinksView {
        LinksView { entries: self.entries@, next: self.ids.peek() }
    }
}

impl LinkStore {
    pub fn new() -> (s: LinkStore)
        ensures
            s@ == (LinksView { entries: Seq::empty(), next: 1 }),
    {
        LinkStore { entries: Vec::new(), ids: IdSource::new() }
    }

    /// Number of links.
    pub fn len(&self) -> (n: usize)
        ensures
            n == self@.entries.len(),
    {
        self.entries.len()
    }

    pub fn link(&mut self, a: FlowId, b: FlowId) -> (r: Result<LinkId, LifecycleError>)
        ensures
            a == b ==> r == Err::<LinkId, LifecycleError>(LifecycleError::SelfRelation)
                && final(self)@ == old(self)@,
            a != b ==> r == Ok::<LinkId, LifecycleError>(LinkId(old(self)@.next)) && final(self)@
                == old(self)@.linked(a, b),
    {
        if a.0 == b.0 {
            return Err(LifecycleError::SelfRelation);
        }
        let link = LinkId(self.ids.fresh());
        self.entries.push(LinkEntry { link, a, b });
        Ok(link)
    }

    /// Drop a link. Only the flows at its ends can.
    pub fn unlink_owned(&mut self, owner: FlowId, link: LinkId) -> (r: Result<(), LifecycleError>)
        ensures
            final(self)@ == old(self)@.dropped(owner, link),
            r == (if old(self)@.owns(owner, link) {
                Ok::<(), LifecycleError>(())
            } else {
                Err::<(), LifecycleError>(LifecycleError::NoSuchRelation)
            }),
    {
        let mut kept: Vec<LinkEntry> = Vec::new();
        let mut found = false;
        let mut i: usize = 0;
        let ghost pred = |e: LinkEntry| !(e.link == link && e.joins(owner));
        proof {
            filter_ends(self.entries@, pred);
        }
        while i < self.entries.len()
            invariant
                i <= self.entries@.len(),
                pred == (|e: LinkEntry| !(e.link == link && e.joins(owner))),
                kept@ == self.entries@.take(i as int).filter(pred),
                found <==> exists|j: int|
                    0 <= j < i && (#[trigger] self.entries@[j]).link == link
                        && self.entries@[j].joins(owner),
            decreases self.entries@.len() - i,
        {
            let e = self.entries[i];
            proof {
                filter_step(self.entries@, pred, i as int);
            }
            if e.link.0 == link.0 && (e.a.0 == owner.0 || e.b.0 == owner.0) {
                found = true;
            } else {
                kept.push(e);
            }
            i = i + 1;
        }
        proof {
            filter_ends(self.entries@, pred);
            assert(self@.entries == self.entries@);
            assert(found <==> self@.owns(owner, link));
        }
        self.entries = kept;
        if found {
            Ok(())
        } else {
            Err(LifecycleError::NoSuchRelation)
        }
    }

    /// Drop all links of a flow, and name the flows at their other ends.
    pub fn remove_links_of(&mut self, flow: FlowId) -> (r: Vec<(LinkId, FlowId)>)
        ensures
            r@ == old(self)@.peers(flow),
            final(self)@ == old(self)@.without(flow),
    {
        let mut kept: Vec<LinkEntry> = Vec::new();
        let mut peers: Vec<(LinkId, FlowId)> = Vec::new();
        let mut i: usize = 0;
        let ghost keep = |e: LinkEntry| !e.joins(flow);
        let ghost hit = |e: LinkEntry| e.joins(flow);
        let ghost peer = |e: LinkEntry| (e.link, e.peer_of(flow));
        proof {
            filter_ends(self.entries@, keep);
            filter_ends(self.entries@, hit);
        }
        while i < self.entries.len()
            invariant
                i <= self.entries@.len(),
                keep == (|e: LinkEntry| !e.joins(flow)),
                hit == (|e: LinkEntry| e.joins(flow)),
                peer == (|e: LinkEntry| (e.link, e.peer_of(flow))),
                kept@ == self.entries@.take(i as int).filter(keep),
                peers@ =~= self.entries@.take(i as int).filter(hit).map_values(peer),
            decreases self.entries@.len() - i,
        {
            let e = self.entries[i];
            proof {
                filter_step(self.entries@, keep, i as int);
                filter_step(self.entries@, hit, i as int);
            }
            if e.a.0 == flow.0 {
                peers.push((e.link, e.b));
            } else if e.b.0 == flow.0 {
                peers.push((e.link, e.a));
            } else {
                kept.push(e);
            }
            i = i + 1;
        }
        proof {
            filter_ends(self.entries@, keep);
            filter_ends(self.entries@, hit);
        }
        self.entries = kept;
        peers
    }
}

/// Dropping a flow's links leaves fewer links, unless it had none, and then
/// nobody is named.
pub proof fn dropping_links_shrinks(l: LinksView, flow: FlowId)
    ensures
        l.without(flow).entries.len() + l.peers(flow).len() == l.entries.len(),
{
    filter_splits(l.entries, |e: LinkEntry| e.joins(flow), |e: LinkEntry| !e.joins(flow));
}

proof fn filter_splits(
    s: Seq<LinkEntry>,
    p: spec_fn(LinkEntry) -> bool,
    q: spec_fn(LinkEntry) -> bool,
)
    requires
        forall|e: LinkEntry| #[trigger] p(e) == !q(e),
    ensures
        s.filter(p).len() + s.filter(q).len() == s.len(),
    decreases s.len(),
{
    reveal(Seq::filter);
    if s.len() > 0 {
        assert(p(s.last()) == !q(s.last()));
        filter_splits(s.drop_last(), p, q);
    }
}

} // verus!
