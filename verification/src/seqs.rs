//! Facts about filtered sequences.

use vstd::prelude::*;

verus! {

/// What a filter keeps comes from the sequence.
pub proof fn filter_keeps_members<A>(s: Seq<A>, f: spec_fn(A) -> bool)
    ensures
        forall|x: A| s.filter(f).contains(x) <==> s.contains(x) && f(x),
    decreases s.len(),
{
    reveal(Seq::filter);
    broadcast use vstd::seq_lib::group_seq_properties;

    if s.len() > 0 {
        let t = s.drop_last();
        filter_keeps_members(t, f);
        assert(s =~= t.push(s.last()));
    }
}

/// One element comes before another in a sequence.
pub open spec fn comes_before<A>(s: Seq<A>, x: A, y: A) -> bool {
    exists|a: int, b: int|
        0 <= a < b < s.len() && #[trigger] s[a] == x && #[trigger] s[b] == y
}

/// Elements follow each other as they do in another sequence.
pub open spec fn in_order<A>(r: Seq<A>, s: Seq<A>) -> bool {
    forall|i: int, j: int|
        0 <= i < j < r.len() ==> comes_before(s, #[trigger] r[i], #[trigger] r[j])
}

/// A filter leaves the elements in their order.
pub proof fn filter_keeps_order<A>(s: Seq<A>, f: spec_fn(A) -> bool)
    ensures
        in_order(s.filter(f), s),
        s.filter(f).len() <= s.len(),
    decreases s.len(),
{
    reveal(Seq::filter);
    if s.len() > 0 {
        let t = s.drop_last();
        filter_keeps_order(t, f);
        filter_keeps_members(t, f);
        let u = t.filter(f);
        let r = s.filter(f);
        assert(r == if f(s.last()) { u.push(s.last()) } else { u });
        assert forall|i: int, j: int| 0 <= i < j < r.len() implies comes_before(
            s,
            #[trigger] r[i],
            #[trigger] r[j],
        ) by {
            if j == u.len() {
                assert(r[i] == u[i]);
                assert(u.contains(u[i]));
                assert(t.contains(u[i]));
                let a = choose|a: int| 0 <= a < t.len() && t[a] == u[i];
                let b = s.len() - 1;
                assert(s[a] == r[i] && s[b] == r[j]);
            } else {
                assert(r[i] == u[i] && r[j] == u[j]);
                assert(comes_before(t, u[i], u[j]));
                let (a, b) = choose|a: int, b: int|
                    0 <= a < b < t.len() && #[trigger] t[a] == u[i] && #[trigger] t[b] == u[j];
                assert(s[a] == r[i] && s[b] == r[j]);
            }
        }
    }
}

/// The position of the first element that a predicate holds of; the length where
/// it holds of none.
pub open spec fn first_where<A>(s: Seq<A>, f: spec_fn(A) -> bool) -> int
    decreases s.len(),
{
    if s.len() == 0 {
        0
    } else if f(s[0]) {
        0
    } else {
        1 + first_where(s.drop_first(), f)
    }
}

/// What the first position is.
pub proof fn first_where_is<A>(s: Seq<A>, f: spec_fn(A) -> bool)
    ensures
        0 <= first_where(s, f) <= s.len(),
        first_where(s, f) < s.len() ==> f(s[first_where(s, f)]),
        forall|i: int| 0 <= i < first_where(s, f) ==> !f(#[trigger] s[i]),
    decreases s.len(),
{
    if s.len() > 0 && !f(s[0]) {
        let t = s.drop_first();
        first_where_is(t, f);
        assert forall|i: int| 0 <= i < first_where(s, f) implies !f(#[trigger] s[i]) by {
            if i > 0 {
                assert(t[i - 1] == s[i]);
            }
        }
    }
}

/// The first position is the one that the predicate holds at and at no earlier one.
pub proof fn first_where_unique<A>(s: Seq<A>, f: spec_fn(A) -> bool, p: int)
    requires
        0 <= p <= s.len(),
        p < s.len() ==> f(s[p]),
        forall|i: int| 0 <= i < p ==> !f(#[trigger] s[i]),
    ensures
        first_where(s, f) == p,
{
    first_where_is(s, f);
    let q = first_where(s, f);
    if q < p {
        assert(!f(s[q]));
    } else if p < q {
        assert(!f(s[p]));
    }
}

/// The sequence cut off behind a number of elements.
pub open spec fn at_most<A>(s: Seq<A>, n: int) -> Seq<A> {
    if s.len() <= n {
        s
    } else {
        s.take(n)
    }
}

/// What taking an element away with the last one put in its place leaves.
pub open spec fn swap_removed<A>(s: Seq<A>, i: int) -> Seq<A> {
    s.update(i, s.last()).drop_last()
}

} // verus!
