//! A stable sort for values that are ordered by a path.

use vstd::prelude::*;
use crate::path::{FilePath, PartView, PathView};

verus! {

/// Values that are ordered by a path-like key of their view.
pub trait Ranked: Sized + View {
    /// The key that the order goes by.
    spec fn key(v: Self::V) -> Seq<PartView>;

    /// Whether the key is at most that of `other`.
    fn key_at_most(&self, other: &Self) -> (r: bool)
        ensures
            r == crate::path::path_le(Self::key(self@), Self::key(other@)),
    ;
}

impl Ranked for FilePath {
    open spec fn key(v: PathView) -> Seq<PartView> {
        v.parts()
    }

    fn key_at_most(&self, other: &Self) -> (r: bool) {
        self.at_most(other)
    }
}

/// The views of a sequence of values.
pub open spec fn views<T: View>(s: Seq<T>) -> Seq<T::V> {
    Seq::new(s.len(), |i: int| s[i]@)
}

/// The sequence with `x` put in front of the first element whose key is not smaller.
pub open spec fn inserted<T: Ranked>(x: T::V, s: Seq<T::V>) -> Seq<T::V>
    decreases s.len(),
{
    if s.len() == 0 {
        seq![x]
    } else if crate::path::path_le(T::key(x), T::key(s[0])) {
        seq![x] + s
    } else {
        seq![s[0]] + inserted::<T>(x, s.drop_first())
    }
}

/// The elements in ascending order of their keys; equal keys keep their order.
pub open spec fn stable_sort<T: Ranked>(s: Seq<T::V>) -> Seq<T::V>
    decreases s.len(),
{
    if s.len() == 0 {
        s
    } else {
        inserted::<T>(s[0], stable_sort::<T>(s.drop_first()))
    }
}

/// The elements with one key, in order.
pub open spec fn of_key<T: Ranked>(s: Seq<T::V>, k: Seq<PartView>) -> Seq<T::V> {
    s.filter(|v: T::V| T::key(v) == k)
}

/// The keys ascend.
pub open spec fn ascending<T: Ranked>(s: Seq<T::V>) -> bool {
    forall|i: int, j: int|
        0 <= i <= j < s.len() ==> crate::path::path_le(
            #[trigger] T::key(s[i]),
            #[trigger] T::key(s[j]),
        )
}

proof fn inserted_at<T: Ranked>(x: T::V, s: Seq<T::V>, p: int)
    requires
        0 <= p <= s.len(),
        forall|i: int| 0 <= i < p ==> !crate::path::path_le(T::key(x), #[trigger] T::key(s[i])),
        p < s.len() ==> crate::path::path_le(T::key(x), T::key(s[p])),
    ensures
        inserted::<T>(x, s) == s.insert(p, x),
    decreases s.len(),
{
    if s.len() == 0 {
        assert(seq![x] =~= s.insert(p, x));
    } else if p == 0 {
        assert(seq![x] + s =~= s.insert(p, x));
    } else {
        let t = s.drop_first();
        assert(!crate::path::path_le(T::key(x), T::key(s[0])));
        assert forall|i: int| 0 <= i < p - 1 implies !crate::path::path_le(
            T::key(x),
            #[trigger] T::key(t[i]),
        ) by {
            assert(t[i] == s[i + 1]);
        }
        inserted_at::<T>(x, t, p - 1);
        assert(seq![s[0]] + t.insert(p - 1, x) =~= s.insert(p, x));
    }
}

proof fn inserted_facts<T: Ranked>(x: T::V, s: Seq<T::V>)
    ensures
        inserted::<T>(x, s).len() == s.len() + 1,
        inserted::<T>(x, s).to_multiset() =~= s.to_multiset().insert(x),
        ascending::<T>(s) ==> ascending::<T>(inserted::<T>(x, s)),
        forall|k: Seq<PartView>|
            #[trigger] of_key::<T>(inserted::<T>(x, s), k) == of_key::<T>(seq![x] + s, k),
    decreases s.len(),
{
    broadcast use vstd::seq_lib::group_to_multiset_ensures;

    let r = inserted::<T>(x, s);
    if s.len() == 0 {
        assert(seq![x] + s =~= seq![x]);
        assert(r =~= s.push(x));
        crate::path::path_le_reflexive(T::key(x));
    } else if crate::path::path_le(T::key(x), T::key(s[0])) {
        assert(r =~= s.insert(0, x));
        if ascending::<T>(s) {
            assert forall|i: int, j: int| 0 <= i <= j < r.len() implies crate::path::path_le(
                #[trigger] T::key(r[i]),
                #[trigger] T::key(r[j]),
            ) by {
                if i == 0 && j == 0 {
                    crate::path::path_le_reflexive(T::key(x));
                } else if i == 0 {
                    assert(r[j] == s[j - 1]);
                    assert(crate::path::path_le(T::key(s[0]), T::key(s[j - 1])));
                    crate::path::path_le_transitive(T::key(x), T::key(s[0]), T::key(s[j - 1]));
                } else {
                    assert(r[i] == s[i - 1] && r[j] == s[j - 1]);
                }
            }
        }
    } else {
        let t = s.drop_first();
        let u = inserted::<T>(x, t);
        inserted_facts::<T>(x, t);
        crate::path::path_le_total(T::key(x), T::key(s[0]));
        assert(s =~= t.insert(0, s[0]));
        assert(r =~= u.insert(0, s[0]));
        assert(t.insert(0, s[0]).to_multiset() =~= t.to_multiset().insert(s[0]));
        assert(u.insert(0, s[0]).to_multiset() =~= u.to_multiset().insert(s[0]));
        if ascending::<T>(s) {
            assert forall|i: int, j: int| 0 <= i <= j < t.len() implies crate::path::path_le(
                #[trigger] T::key(t[i]),
                #[trigger] T::key(t[j]),
            ) by {
                assert(t[i] == s[i + 1] && t[j] == s[j + 1]);
            }
            assert forall|j: int| 0 <= j < u.len() implies crate::path::path_le(
                T::key(s[0]),
                #[trigger] T::key(u[j]),
            ) by {
                assert(u.to_multiset().contains(u[j]));
                if u[j] != x {
                    assert(t.to_multiset().contains(u[j]));
                    let k = choose|k: int| 0 <= k < t.len() && t[k] == u[j];
                    assert(t[k] == s[k + 1]);
                }
            }
            assert forall|i: int, j: int| 0 <= i <= j < r.len() implies crate::path::path_le(
                #[trigger] T::key(r[i]),
                #[trigger] T::key(r[j]),
            ) by {
                if i > 0 {
                    assert(r[i] == u[i - 1] && r[j] == u[j - 1]);
                } else if j == 0 {
                    crate::path::path_le_reflexive(T::key(s[0]));
                } else {
                    assert(r[j] == u[j - 1]);
                }
            }
        }
        assert forall|k: Seq<PartView>|
            #[trigger] of_key::<T>(inserted::<T>(x, s), k) == of_key::<T>(seq![x] + s, k) by {
            let f = |v: T::V| T::key(v) == k;
            let one = seq![s[0]];
            let new = seq![x];
            assert(s =~= one + t);
            assert(T::key(x) != T::key(s[0])) by {
                crate::path::path_le_reflexive(T::key(x));
            }
            Seq::filter_distributes_over_add(one, u, f);
            Seq::filter_distributes_over_add(new, t, f);
            Seq::filter_distributes_over_add(new, s, f);
            Seq::filter_distributes_over_add(one, t, f);
            reveal_with_fuel(Seq::filter, 2);
            assert(one.drop_last() =~= Seq::<T::V>::empty());
            assert(new.drop_last() =~= Seq::<T::V>::empty());
            assert(of_key::<T>(u, k) == of_key::<T>(new + t, k));
            assert(one.filter(f) + (new.filter(f) + t.filter(f)) =~= new.filter(f) + (one.filter(f)
                + t.filter(f)));
        }
    }
}

/// Sorting keeps every element, puts the keys in ascending order, and leaves
/// elements of one key in the order they had.
pub proof fn stable_sort_law<T: Ranked>(s: Seq<T::V>)
    ensures
        stable_sort::<T>(s).len() == s.len(),
        stable_sort::<T>(s).to_multiset() =~= s.to_multiset(),
        ascending::<T>(stable_sort::<T>(s)),
        forall|k: Seq<PartView>|
            #[trigger] of_key::<T>(stable_sort::<T>(s), k) == of_key::<T>(s, k),
    decreases s.len(),
{
    broadcast use vstd::seq_lib::group_to_multiset_ensures;

    if s.len() > 0 {
        let t = s.drop_first();
        let u = stable_sort::<T>(t);
        stable_sort_law::<T>(t);
        inserted_facts::<T>(s[0], u);
        assert(s =~= t.insert(0, s[0]));
        assert(t.insert(0, s[0]).to_multiset() =~= t.to_multiset().insert(s[0]));
        assert forall|k: Seq<PartView>|
            #[trigger] of_key::<T>(stable_sort::<T>(s), k) == of_key::<T>(s, k) by {
            let f = |v: T::V| T::key(v) == k;
            let one = seq![s[0]];
            Seq::filter_distributes_over_add(one, u, f);
            Seq::filter_distributes_over_add(one, t, f);
            assert(s =~= one + t);
            assert(of_key::<T>(u, k) == of_key::<T>(t, k));
            assert(of_key::<T>(inserted::<T>(s[0], u), k) == of_key::<T>(one + u, k));
        }
    }
}

/// Paths that name the same file are written in the same way.
pub open spec fn one_spelling(s: Seq<PathView>) -> bool {
    forall|i: int, j: int|
        0 <= i < s.len() && 0 <= j < s.len() && (#[trigger] s[i]).same(#[trigger] s[j]) ==> s[i]
            == s[j]
}

/// Sorting does not depend on the order in which the paths came, where each file is
/// written in one way only.
pub proof fn sorted_paths_unique(a: Seq<PathView>, b: Seq<PathView>)
    requires
        a.to_multiset() =~= b.to_multiset(),
        one_spelling(a),
    ensures
        stable_sort::<FilePath>(a) == stable_sort::<FilePath>(b),
{
    stable_sort_law::<FilePath>(a);
    stable_sort_law::<FilePath>(b);
    spelling_goes_by_members(a, stable_sort::<FilePath>(a));
    ascending_paths_equal(stable_sort::<FilePath>(a), stable_sort::<FilePath>(b));
}

proof fn spelling_goes_by_members(a: Seq<PathView>, b: Seq<PathView>)
    requires
        one_spelling(a),
        forall|x: PathView| b.to_multiset().contains(x) ==> a.to_multiset().contains(x),
    ensures
        one_spelling(b),
{
    broadcast use vstd::seq_lib::group_to_multiset_ensures;

    assert forall|i: int, j: int|
        0 <= i < b.len() && 0 <= j < b.len() && (#[trigger] b[i]).same(#[trigger] b[j]) implies b[i]
        == b[j] by {
        assert(b.to_multiset().contains(b[i]) && b.to_multiset().contains(b[j]));
        let k = choose|k: int| 0 <= k < a.len() && a[k] == b[i];
        let l = choose|l: int| 0 <= l < a.len() && a[l] == b[j];
        assert(a[k].same(a[l]));
    }
}

proof fn ascending_paths_equal(x: Seq<PathView>, y: Seq<PathView>)
    requires
        ascending::<FilePath>(x),
        ascending::<FilePath>(y),
        x.to_multiset() =~= y.to_multiset(),
        one_spelling(x),
    ensures
        x == y,
    decreases x.len(),
{
    broadcast use vstd::seq_lib::group_to_multiset_ensures;

    assert(x.len() == x.to_multiset().len() && y.len() == y.to_multiset().len());
    if x.len() == 0 {
        assert(x =~= y);
    } else {
        assert(x.to_multiset().contains(x[0]) && y.to_multiset().contains(y[0]));
        let k = choose|k: int| 0 <= k < y.len() && y[k] == x[0];
        let l = choose|l: int| 0 <= l < x.len() && x[l] == y[0];
        assert(crate::path::path_le(<FilePath as Ranked>::key(y[0]), <FilePath as Ranked>::key(y[k])));
        assert(crate::path::path_le(<FilePath as Ranked>::key(x[0]), <FilePath as Ranked>::key(x[l])));
        crate::path::path_le_antisymmetric(x[0].parts(), y[0].parts());
        assert(x[0].same(x[l]));
        assert(x[0] == y[0]);
        let s = x.drop_first();
        let t = y.drop_first();
        assert(x =~= s.insert(0, x[0]));
        assert(y =~= t.insert(0, y[0]));
        assert(x.to_multiset() =~= s.to_multiset().insert(x[0]));
        assert(y.to_multiset() =~= t.to_multiset().insert(x[0]));
        assert(s.to_multiset() =~= x.to_multiset().remove(x[0]));
        assert(t.to_multiset() =~= y.to_multiset().remove(x[0]));
        assert forall|i: int, j: int| 0 <= i <= j < s.len() implies crate::path::path_le(
            #[trigger] <FilePath as Ranked>::key(s[i]),
            #[trigger] <FilePath as Ranked>::key(s[j]),
        ) by {
            assert(s[i] == x[i + 1] && s[j] == x[j + 1]);
        }
        assert forall|i: int, j: int| 0 <= i <= j < t.len() implies crate::path::path_le(
            #[trigger] <FilePath as Ranked>::key(t[i]),
            #[trigger] <FilePath as Ranked>::key(t[j]),
        ) by {
            assert(t[i] == y[i + 1] && t[j] == y[j + 1]);
        }
        assert forall|i: int, j: int|
            0 <= i < s.len() && 0 <= j < s.len() && (#[trigger] s[i]).same(
                #[trigger] s[j],
            ) implies s[i] == s[j] by {
            assert(s[i] == x[i + 1] && s[j] == x[j + 1]);
        }
        ascending_paths_equal(s, t);
        assert(x =~= y);
    }
}

/// Where `x` belongs in a sorted vector: in front of the first element whose key is not smaller.
fn find_place<T: Ranked>(x: &T, v: &Vec<T>) -> (p: usize)
    requires
        ascending::<T>(views(v@)),
    ensures
        p <= v.len(),
        inserted::<T>(x@, views(v@)) == views(v@).insert(p as int, x@),
{
    let ghost s = views(v@);
    let mut lo: usize = 0;
    let mut hi: usize = v.len();
    while lo < hi
        invariant
            s == views(v@),
            ascending::<T>(s),
            lo <= hi <= v.len(),
            forall|i: int|
                0 <= i < lo ==> !crate::path::path_le(T::key(x@), #[trigger] T::key(s[i])),
            forall|i: int|
                hi <= i < s.len() ==> crate::path::path_le(T::key(x@), #[trigger] T::key(s[i])),
        decreases hi - lo,
    {
        let mid: usize = lo + (hi - lo) / 2;
        assert(s[mid as int] == v@[mid as int]@);
        if x.key_at_most(&v[mid]) {
            assert forall|i: int| mid <= i < s.len() implies crate::path::path_le(
                T::key(x@),
                #[trigger] T::key(s[i]),
            ) by {
                assert(crate::path::path_le(T::key(s[mid as int]), T::key(s[i])));
                crate::path::path_le_transitive(T::key(x@), T::key(s[mid as int]), T::key(s[i]));
            }
            hi = mid;
        } else {
            assert forall|i: int| 0 <= i <= mid implies !crate::path::path_le(
                T::key(x@),
                #[trigger] T::key(s[i]),
            ) by {
                if crate::path::path_le(T::key(x@), T::key(s[i])) {
                    assert(crate::path::path_le(T::key(s[i]), T::key(s[mid as int])));
                    crate::path::path_le_transitive(T::key(x@), T::key(s[i]), T::key(s[mid as int]));
                }
            }
            lo = mid + 1;
        }
    }
    proof {
        inserted_at::<T>(x@, s, lo as int);
    }
    lo
}

/// Sorts a vector by key, leaving elements of one key in the order they had.
pub fn sort_stably<T: Ranked>(v: Vec<T>) -> (r: Vec<T>)
    ensures
        views(r@) == stable_sort::<T>(views(v@)),
{
    let ghost all = views(v@);
    let mut v = v;
    let mut out: Vec<T> = Vec::new();
    assert(views(out@) =~= stable_sort::<T>(all.skip(all.len() as int)));
    while v.len() > 0
        invariant
            v.len() <= all.len(),
            views(v@) == all.take(v.len() as int),
            views(out@) == stable_sort::<T>(all.skip(v.len() as int)),
        decreases v.len(),
    {
        let ghost n = v.len() as int;
        let ghost before = v@;
        assert(views(v@)[n - 1] == v@[n - 1]@);
        let x: T = v.pop().unwrap();
        assert(x@ == all[n - 1]);
        assert(views(v@) =~= all.take(n - 1)) by {
            assert forall|i: int| 0 <= i < n - 1 implies views(v@)[i] == all[i] by {
                assert(views(before)[i] == all.take(n)[i]);
            }
        }
        proof {
            stable_sort_law::<T>(all.skip(n));
            assert(all.skip(n - 1).drop_first() =~= all.skip(n));
            assert(all.skip(n - 1)[0] == x@);
        }
        let p: usize = find_place(&x, &out);
        let ghost old_out = out@;
        let ghost xv = x@;
        out.insert(p, x);
        assert(views(out@) =~= views(old_out).insert(p as int, xv));
    }
    assert(all.skip(0) =~= all);
    out
}

} // verus!
