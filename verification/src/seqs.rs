//! Facts about sequences.

use vstd::prelude::*;

verus! {

/// How the filtered prefix of a sequence grows.
pub proof fn filter_step<A>(s: Seq<A>, pred: spec_fn(A) -> bool, i: int)
    requires
        0 <= i < s.len(),
    ensures
        s.take(i + 1).filter(pred) == (if pred(s[i]) {
            s.take(i).filter(pred).push(s[i])
        } else {
            s.take(i).filter(pred)
        }),
{
    reveal(Seq::filter);
    assert(s.take(i + 1).drop_last() =~= s.take(i));
}

/// The filter of nothing is nothing, and the prefix of full length is the
/// whole.
pub proof fn filter_ends<A>(s: Seq<A>, pred: spec_fn(A) -> bool)
    ensures
        s.take(0).filter(pred) == Seq::<A>::empty(),
        s.take(s.len() as int) == s,
{
    reveal(Seq::filter);
    assert(s.take(0) =~= Seq::<A>::empty());
    assert(s.take(s.len() as int) =~= s);
}

/// A filter that lets everything through changes nothing.
pub proof fn filter_all<A>(s: Seq<A>, p: spec_fn(A) -> bool)
    requires
        forall|i: int| 0 <= i < s.len() ==> p(#[trigger] s[i]),
    ensures
        s.filter(p) == s,
    decreases s.len(),
{
    reveal(Seq::filter);
    if s.len() > 0 {
        let front = s.drop_last();
        assert forall|i: int| 0 <= i < front.len() implies p(#[trigger] front[i]) by {
            assert(front[i] == s[i]);
        }
        filter_all(front, p);
        assert(s =~= front.push(s.last()));
    } else {
        assert(s.filter(p) =~= s);
    }
}

/// How many elements have a property.
pub open spec fn tally<A>(s: Seq<A>, p: spec_fn(A) -> bool) -> nat
    decreases s.len(),
{
    if s.len() == 0 {
        0
    } else if p(s.last()) {
        tally(s.drop_last(), p) + 1
    } else {
        tally(s.drop_last(), p)
    }
}

pub proof fn tally_push<A>(s: Seq<A>, a: A, p: spec_fn(A) -> bool)
    ensures
        tally(s.push(a), p) == tally(s, p) + (if p(a) {
            1nat
        } else {
            0nat
        }),
{
    assert(s.push(a).drop_last() =~= s);
}

pub proof fn tally_insert<A>(s: Seq<A>, i: int, a: A, p: spec_fn(A) -> bool)
    requires
        0 <= i <= s.len(),
    ensures
        tally(s.insert(i, a), p) == tally(s, p) + (if p(a) {
            1nat
        } else {
            0nat
        }),
    decreases s.len(),
{
    if i == s.len() {
        assert(s.insert(i, a) =~= s.push(a));
        tally_push(s, a, p);
    } else {
        tally_insert(s.drop_last(), i, a, p);
        assert(s.insert(i, a).drop_last() =~= s.drop_last().insert(i, a));
        assert(s.insert(i, a).last() == s.last());
    }
}

pub proof fn tally_remove<A>(s: Seq<A>, i: int, p: spec_fn(A) -> bool)
    requires
        0 <= i < s.len(),
    ensures
        tally(s, p) == tally(s.remove(i), p) + (if p(s[i]) {
            1nat
        } else {
            0nat
        }),
{
    tally_insert(s.remove(i), i, s[i], p);
    assert(s.remove(i).insert(i, s[i]) =~= s);
}

/// A property is counted if and only if an element has it.
pub proof fn tally_witness<A>(s: Seq<A>, p: spec_fn(A) -> bool)
    ensures
        tally(s, p) > 0 <==> exists|i: int| 0 <= i < s.len() && p(#[trigger] s[i]),
    decreases s.len(),
{
    if s.len() > 0 {
        let front = s.drop_last();
        tally_witness(front, p);
        if tally(front, p) > 0 {
            let i = choose|i: int| 0 <= i < front.len() && p(#[trigger] front[i]);
            assert(p(s[i]));
        }
        if p(s.last()) {
            assert(p(s[s.len() - 1]));
        }
        if exists|i: int| 0 <= i < s.len() && p(#[trigger] s[i]) {
            let i = choose|i: int| 0 <= i < s.len() && p(#[trigger] s[i]);
            if i < front.len() {
                assert(p(front[i]));
            }
        }
    }
}

/// Two elements with a property count twice.
pub proof fn tally_two<A>(s: Seq<A>, p: spec_fn(A) -> bool, i: int, j: int)
    requires
        0 <= i < j < s.len(),
        p(s[i]),
        p(s[j]),
    ensures
        tally(s, p) >= 2,
{
    tally_remove(s, j, p);
    let rest = s.remove(j);
    assert(p(rest[i]));
    tally_witness(rest, p);
}

} // verus!
