//! Lexicographic order on strings.

use vstd::prelude::*;
use crate::text::chars_of;

verus! {

/// `a` comes before `b` or equals it, comparing code points from the left.
pub open spec fn chars_le(a: Seq<char>, b: Seq<char>) -> bool
    decreases a.len(),
{
    if a.len() == 0 {
        true
    } else if b.len() == 0 {
        false
    } else if a[0] == b[0] {
        chars_le(a.drop_first(), b.drop_first())
    } else {
        a[0] < b[0]
    }
}

/// Every string comes before itself or equals it.
pub proof fn chars_le_reflexive(a: Seq<char>)
    ensures
        chars_le(a, a),
    decreases a.len(),
{
    if a.len() > 0 {
        chars_le_reflexive(a.drop_first());
    }
}

/// Of two strings, one comes before the other or equals it.
pub proof fn chars_le_total(a: Seq<char>, b: Seq<char>)
    ensures
        chars_le(a, b) || chars_le(b, a),
    decreases a.len(),
{
    if a.len() > 0 && b.len() > 0 && a[0] == b[0] {
        chars_le_total(a.drop_first(), b.drop_first());
    }
}

/// Strings that come before each other are equal.
pub proof fn chars_le_antisymmetric(a: Seq<char>, b: Seq<char>)
    requires
        chars_le(a, b),
        chars_le(b, a),
    ensures
        a == b,
    decreases a.len(),
{
    if a.len() > 0 && b.len() > 0 && a[0] == b[0] {
        chars_le_antisymmetric(a.drop_first(), b.drop_first());
        assert(a =~= seq![a[0]] + a.drop_first());
        assert(b =~= seq![b[0]] + b.drop_first());
    } else {
        assert(a =~= b);
    }
}

/// The order on strings is transitive.
pub proof fn chars_le_transitive(a: Seq<char>, b: Seq<char>, c: Seq<char>)
    requires
        chars_le(a, b),
        chars_le(b, c),
    ensures
        chars_le(a, c),
    decreases a.len(),
{
    if a.len() > 0 && b.len() > 0 && c.len() > 0 && a[0] == b[0] && b[0] == c[0] {
        chars_le_transitive(a.drop_first(), b.drop_first(), c.drop_first());
    }
}

/// Compares two strings by code points from the left.
pub fn text_at_most(a: &str, b: &str) -> (r: bool)
    ensures
        r == chars_le(a@, b@),
{
    chars_at_most(&chars_of(a), &chars_of(b))
}

/// Compares two lists of characters by code points from the left.
pub fn chars_at_most(x: &Vec<char>, y: &Vec<char>) -> (r: bool)
    ensures
        r == chars_le(x@, y@),
{
    let mut i: usize = 0;
    assert(x@.skip(0) =~= x@ && y@.skip(0) =~= y@);
    while i < x.len() && i < y.len()
        invariant
            i <= x.len(),
            i <= y.len(),
            chars_le(x@, y@) == chars_le(x@.skip(i as int), y@.skip(i as int)),
        decreases x.len() - i,
    {
        let ghost p: Seq<char> = x@.skip(i as int);
        let ghost q: Seq<char> = y@.skip(i as int);
        assert(p[0] == x@[i as int] && q[0] == y@[i as int]);
        if x[i] != y[i] {
            return x[i] < y[i];
        }
        assert(p.drop_first() =~= x@.skip(i + 1));
        assert(q.drop_first() =~= y@.skip(i + 1));
        i += 1;
    }
    i == x.len()
}

/// The first place where two strings differ decides; where one is the beginning of the
/// other, it comes first.
pub proof fn first_difference_decides(a: Seq<char>, b: Seq<char>, k: int)
    requires
        0 <= k <= a.len(),
        k <= b.len(),
        a.take(k) == b.take(k),
    ensures
        k < a.len() && k < b.len() && a[k] < b[k] ==> chars_le(a, b) && !chars_le(b, a),
        k == a.len() ==> chars_le(a, b),
        k == a.len() && k < b.len() ==> !chars_le(b, a),
    decreases k,
{
    if k > 0 {
        assert(a[0] == a.take(k)[0] && b[0] == b.take(k)[0]);
        assert(a.drop_first().take(k - 1) =~= a.take(k).drop_first());
        assert(b.drop_first().take(k - 1) =~= b.take(k).drop_first());
        first_difference_decides(a.drop_first(), b.drop_first(), k - 1);
    }
}

} // verus!
