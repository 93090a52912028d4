//! The cache of images decoded ahead of time.

use vstd::prelude::*;
use std::collections::VecDeque;
use std::sync::Arc;
use crate::path::{FilePath, PartView};

verus! {

/// Quality of a decoded image. Immediate neighbours are decoded at display size,
/// farther ones at a low size that is cheap to decode.
#[derive(Debug, Clone, Copy, PartialEq, Eq, Structural)]
pub enum Tier {
    Full,
    Low,
}

/// The longest side of an image of the low tier.
pub const LOW_RES_DIM: u32 = 640;

/// The upper bound for the longest side of an image of the full tier.
pub const FULL_RES_DIM: u32 = 4096;

/// The lower bound for the longest side of an image of the full tier.
pub const FULL_RES_MIN: u32 = 1080;

/// The longest side of the full tier for a viewport: twice the viewport's longer
/// side, but at least the lower bound, and at most the upper bound and the largest
/// texture of the device.
pub open spec fn full_dim(viewport_max: int, limit: int) -> int {
    let top = if limit < FULL_RES_DIM { limit } else { FULL_RES_DIM as int };
    let want = if viewport_max * 2 < FULL_RES_MIN { FULL_RES_MIN as int } else { viewport_max * 2 };
    if want > top {
        top
    } else {
        want
    }
}

/// Computes the longest side of the full tier.
pub fn full_clamp(viewport_max: u32, limit: u32) -> (r: u32)
    requires
        limit >= 1,
        viewport_max * 2 <= u32::MAX,
    ensures
        r == full_dim(viewport_max as int, limit as int),
        1 <= r <= limit,
        r <= FULL_RES_DIM,
        r >= FULL_RES_MIN || r == limit,
{
    let top: u32 = if limit < FULL_RES_DIM {
        limit
    } else {
        FULL_RES_DIM
    };
    let twice: u32 = viewport_max * 2;
    let want: u32 = if twice < FULL_RES_MIN {
        FULL_RES_MIN
    } else {
        twice
    };
    if want > top {
        top
    } else {
        want
    }
}

/// The longest side of the low tier, which no device is asked to exceed.
pub open spec fn low_dim(limit: int) -> int {
    if limit < LOW_RES_DIM {
        limit
    } else {
        LOW_RES_DIM as int
    }
}

/// Computes the longest side of the low tier.
pub fn low_clamp(limit: u32) -> (r: u32)
    ensures
        r == low_dim(limit as int),
{
    if limit < LOW_RES_DIM {
        limit
    } else {
        LOW_RES_DIM
    }
}

/// Whether quality `have` is enough where `want` is asked for.
pub open spec fn serves(have: Tier, want: Tier) -> bool {
    have == Tier::Full || want == Tier::Low
}

/// Decides whether quality `have` is enough where `want` is asked for.
pub fn tier_at_least(have: Tier, want: Tier) -> (r: bool)
    ensures
        r == serves(have, want),
{
    match (have, want) {
        (Tier::Low, Tier::Full) => false,
        _ => true,
    }
}

/// One image of the cache.
pub struct CacheEntry<T> {
    pub path: FilePath,
    pub modified: i128,
    pub image: Arc<T>,
    pub tier: Tier,
}

/// The mathematical counterpart of [`CacheEntry`].
#[verifier::reject_recursive_types(T)]
#[verifier::ext_equal]
pub struct CacheEntryView<T> {
    pub path: Seq<PartView>,
    pub modified: i128,
    pub image: Arc<T>,
    pub tier: Tier,
}

impl<T> View for CacheEntry<T> {
    type V = CacheEntryView<T>;

    open spec fn view(&self) -> CacheEntryView<T> {
        CacheEntryView {
            path: self.path@.parts(),
            modified: self.modified,
            image: self.image,
            tier: self.tier,
        }
    }
}

/// An entry is for one state of one file.
pub open spec fn is_for<T>(path: Seq<PartView>, modified: i128) -> spec_fn(CacheEntryView<T>) -> bool {
    |e: CacheEntryView<T>| e.path == path && e.modified == modified
}

/// An entry is for one state of one file, and of sufficient quality.
pub open spec fn is_hit<T>(path: Seq<PartView>, modified: i128, min_tier: Tier) -> spec_fn(
    CacheEntryView<T>,
) -> bool {
    |e: CacheEntryView<T>| e.path == path && e.modified == modified && serves(e.tier, min_tier)
}

/// The position of the first sufficient entry; the length where there is none.
pub open spec fn hit_position<T>(
    s: Seq<CacheEntryView<T>>,
    path: Seq<PartView>,
    modified: i128,
    min_tier: Tier,
) -> int {
    crate::seqs::first_where(s, is_hit(path, modified, min_tier))
}

/// The cache holds a sufficient entry.
pub open spec fn has_hit<T>(
    s: Seq<CacheEntryView<T>>,
    path: Seq<PartView>,
    modified: i128,
    min_tier: Tier,
) -> bool {
    hit_position(s, path, modified, min_tier) < s.len()
}

/// The cache after a sufficient entry was taken out.
pub open spec fn after_take<T>(
    s: Seq<CacheEntryView<T>>,
    path: Seq<PartView>,
    modified: i128,
    min_tier: Tier,
) -> Seq<CacheEntryView<T>> {
    if has_hit(s, path, modified, min_tier) {
        s.remove(hit_position(s, path, modified, min_tier))
    } else {
        s
    }
}

/// The cache after an image was put in. A full image that is there already moves
/// to the front, with the new pixels if those are full too. Otherwise the new
/// entry takes the place of any entry for the same file state and stands in front,
/// and the last entries go where there are too many.
pub open spec fn after_insert<T>(
    s: Seq<CacheEntryView<T>>,
    e: CacheEntryView<T>,
    cap: int,
) -> Seq<CacheEntryView<T>> {
    let full = hit_position(s, e.path, e.modified, Tier::Full);
    if full < s.len() {
        let kept = if e.tier == Tier::Full {
            CacheEntryView { image: e.image, ..s[full] }
        } else {
            s[full]
        };
        s.remove(full).insert(0, kept)
    } else {
        let any = crate::seqs::first_where(s, is_for(e.path, e.modified));
        let rest = if any < s.len() {
            s.remove(any)
        } else {
            s
        };
        crate::seqs::at_most(rest.insert(0, e), cap)
    }
}

/// No two entries are for the same state of the same file.
pub open spec fn one_per_file<T>(s: Seq<CacheEntryView<T>>) -> bool {
    forall|i: int, j: int|
        0 <= i < j < s.len() ==> (#[trigger] s[i]).path != (#[trigger] s[j]).path || s[i].modified
            != s[j].modified
}

/// A small cache of decoded images, most recently used first.
pub struct PredecodeCache<T> {
    entries: VecDeque<CacheEntry<T>>,
    cap: usize,
}

impl<T> View for PredecodeCache<T> {
    type V = Seq<CacheEntryView<T>>;

    closed spec fn view(&self) -> Seq<CacheEntryView<T>> {
        Seq::new(self.entries@.len(), |i: int| self.entries@[i]@)
    }
}

impl<T> PredecodeCache<T> {
    /// How many images the cache holds at most.
    pub closed spec fn capacity(&self) -> int {
        self.cap as int
    }

    /// The cache is within its capacity and holds one entry per state of a file.
    pub open spec fn wf(&self) -> bool {
        &&& 1 <= self.capacity()
        &&& self@.len() <= self.capacity()
        &&& one_per_file(self@)
    }

    /// An empty cache for at least one image.
    pub fn new(cap: usize) -> (r: Self)
        ensures
            r.wf(),
            r@ == Seq::<CacheEntryView<T>>::empty(),
            r.capacity() == if cap == 0 { 1 } else { cap as int },
    {
        let r = PredecodeCache {
            entries: VecDeque::new(),
            cap: if cap == 0 {
                1
            } else {
                cap
            },
        };
        assert(r@ =~= Seq::<CacheEntryView<T>>::empty());
        r
    }

    fn position_of(&self, path: &FilePath, modified: i128, min_tier: Tier) -> (r: usize)
        ensures
            r == hit_position(self@, path@.parts(), modified, min_tier),
            r <= self.entries@.len(),
    {
        let ghost f = is_hit::<T>(path@.parts(), modified, min_tier);
        let mut i: usize = 0;
        while i < self.entries.len()
            invariant
                f == is_hit::<T>(path@.parts(), modified, min_tier),
                i <= self.entries@.len(),
                forall|j: int| 0 <= j < i ==> !f(#[trigger] self@[j]),
            decreases self.entries@.len() - i,
        {
            assert(self@[i as int] == self.entries@[i as int]@);
            if self.entries[i].path.same(path) && self.entries[i].modified == modified
                && tier_at_least(self.entries[i].tier, min_tier) {
                proof {
                    crate::seqs::first_where_unique(self@, f, i as int);
                }
                return i;
            }
            i += 1;
        }
        proof {
            crate::seqs::first_where_unique(self@, f, i as int);
        }
        i
    }

    fn position_for(&self, path: &FilePath, modified: i128) -> (r: usize)
        ensures
            r == crate::seqs::first_where(self@, is_for(path@.parts(), modified)),
            r <= self.entries@.len(),
    {
        let ghost f = is_for::<T>(path@.parts(), modified);
        let mut i: usize = 0;
        while i < self.entries.len()
            invariant
                f == is_for::<T>(path@.parts(), modified),
                i <= self.entries@.len(),
                forall|j: int| 0 <= j < i ==> !f(#[trigger] self@[j]),
            decreases self.entries@.len() - i,
        {
            assert(self@[i as int] == self.entries@[i as int]@);
            if self.entries[i].path.same(path) && self.entries[i].modified == modified {
                proof {
                    crate::seqs::first_where_unique(self@, f, i as int);
                }
                return i;
            }
            i += 1;
        }
        proof {
            crate::seqs::first_where_unique(self@, f, i as int);
        }
        i
    }

    /// Takes out the image for one state of a file, if it is of sufficient quality.
    pub fn take(&mut self, path: &FilePath, modified: i128, min_tier: Tier) -> (r: Option<Arc<T>>)
        requires
            old(self).wf(),
        ensures
            final(self).wf(),
            final(self).capacity() == old(self).capacity(),
            final(self)@ == after_take(old(self)@, path@.parts(), modified, min_tier),
            r.is_some() == has_hit(old(self)@, path@.parts(), modified, min_tier),
            r matches Some(img) ==> img == old(self)@[hit_position(
                old(self)@,
                path@.parts(),
                modified,
                min_tier,
            )].image,
    {
        let ghost start = self@;
        let pos: usize = self.position_of(path, modified, min_tier);
        if pos >= self.entries.len() {
            return None;
        }
        assert(start[pos as int] == self.entries@[pos as int]@);
        let entry = self.entries.remove(pos).unwrap();
        assert(self@ =~= start.remove(pos as int));
        proof {
            removal_keeps_one_per_file(start, pos as int);
        }
        Some(entry.image)
    }

    /// Puts an image in. A full image replaces a low one for the same state of the
    /// file; a low one is dropped where a full one is there.
    pub fn insert(&mut self, path: FilePath, modified: i128, img: Arc<T>, tier: Tier)
        requires
            old(self).wf(),
        ensures
            final(self).wf(),
            final(self).capacity() == old(self).capacity(),
            final(self)@ == after_insert(
                old(self)@,
                (CacheEntryView { path: path@.parts(), modified, image: img, tier }),
                old(self).capacity(),
            ),
    {
        let ghost start = self@;
        let ghost e = CacheEntryView { path: path@.parts(), modified, image: img, tier };
        proof {
            insertion_law(start, e, self.capacity());
        }
        let full: usize = self.position_of(&path, modified, Tier::Full);
        if full < self.entries.len() {
            assert(start[full as int] == self.entries@[full as int]@);
            let mut entry = self.entries.remove(full).unwrap();
            assert(self@ =~= start.remove(full as int));
            if tier == Tier::Full {
                entry.image = img;
            }
            let ghost ev = entry@;
            let ghost before = self@;
            self.entries.push_front(entry);
            assert(self@ =~= before.insert(0, ev));
            return ;
        }
        let any: usize = self.position_for(&path, modified);
        if any < self.entries.len() {
            let replaced = self.entries.remove(any);
            assert(self@ =~= start.remove(any as int));
        }
        let ghost rest = self@;
        self.entries.push_front(CacheEntry { path, modified, image: img, tier });
        assert(self@ =~= rest.insert(0, e));
        while self.entries.len() > self.cap
            invariant
                self.entries@.len() >= 1,
                self.cap == old(self).cap,
                rest.len() + 1 >= self.entries@.len(),
                self.entries@.len() >= self.cap || self.entries@.len() == rest.len() + 1,
                self.cap >= 1,
                self@ == rest.insert(0, e).take(self.entries@.len() as int),
            decreases self.entries@.len(),
        {
            let ghost n = self.entries@.len() as int;
            let ghost before = self@;
            let dropped = self.entries.pop_back();
            assert(self@ =~= before.take(n - 1));
            assert(before.take(n - 1) =~= rest.insert(0, e).take(n - 1));
        }
        assert(self@ =~= crate::seqs::at_most(rest.insert(0, e), self.capacity()));
    }

    /// Empties the cache.
    pub fn clear(&mut self)
        ensures
            final(self)@ == Seq::<CacheEntryView<T>>::empty(),
            final(self).capacity() == old(self).capacity(),
            old(self).wf() ==> final(self).wf(),
    {
        self.entries.clear();
        assert(self@ =~= Seq::<CacheEntryView<T>>::empty());
    }

    /// Whether there is an image of sufficient quality for one state of a file.
    pub fn contains(&self, path: &FilePath, modified: i128, min_tier: Tier) -> (r: bool)
        ensures
            r == has_hit(self@, path@.parts(), modified, min_tier),
    {
        self.position_of(path, modified, min_tier) < self.entries.len()
    }
}

proof fn removal_keeps_one_per_file<T>(s: Seq<CacheEntryView<T>>, i: int)
    requires
        one_per_file(s),
        0 <= i < s.len(),
    ensures
        one_per_file(s.remove(i)),
{
    let r = s.remove(i);
    assert forall|a: int, b: int| 0 <= a < b < r.len() implies (#[trigger] r[a]).path
        != (#[trigger] r[b]).path || r[a].modified != r[b].modified by {
        let x = if a < i {
            a
        } else {
            a + 1
        };
        let y = if b < i {
            b
        } else {
            b + 1
        };
        assert(r[a] == s[x] && r[b] == s[y]);
    }
}

/// Putting an image in keeps the cache within its capacity and leaves one entry
/// per state of a file. The image's file then has an entry at the front, at least
/// as good as what was put in.
pub proof fn insertion_law<T>(s: Seq<CacheEntryView<T>>, e: CacheEntryView<T>, cap: int)
    requires
        one_per_file(s),
        s.len() <= cap,
        1 <= cap,
    ensures
        after_insert(s, e, cap).len() <= cap,
        one_per_file(after_insert(s, e, cap)),
        after_insert(s, e, cap).len() >= 1,
        is_hit(e.path, e.modified, e.tier)(after_insert(s, e, cap)[0]),
        has_hit(after_insert(s, e, cap), e.path, e.modified, e.tier),
        hit_position(after_insert(s, e, cap), e.path, e.modified, e.tier) == 0,
{
    let full = hit_position(s, e.path, e.modified, Tier::Full);
    let r = after_insert(s, e, cap);
    crate::seqs::first_where_is(s, is_hit::<T>(e.path, e.modified, Tier::Full));
    if full < s.len() {
        let rest = s.remove(full);
        removal_keeps_one_per_file(s, full);
        assert forall|a: int, b: int| 0 <= a < b < r.len() implies (#[trigger] r[a]).path
            != (#[trigger] r[b]).path || r[a].modified != r[b].modified by {
            assert(r[b] == rest[b - 1]);
            if a == 0 {
                let y = if b - 1 < full {
                    b - 1
                } else {
                    b
                };
                assert(rest[b - 1] == s[y]);
                assert(y != full);
                if y < full {
                    assert(s[y].path != s[full].path || s[y].modified != s[full].modified);
                } else {
                    assert(s[full].path != s[y].path || s[full].modified != s[y].modified);
                }
            } else {
                assert(r[a] == rest[a - 1]);
            }
        }
    } else {
        let any = crate::seqs::first_where(s, is_for(e.path, e.modified));
        crate::seqs::first_where_is(s, is_for::<T>(e.path, e.modified));
        let rest = if any < s.len() {
            s.remove(any)
        } else {
            s
        };
        if any < s.len() {
            removal_keeps_one_per_file(s, any);
        }
        let whole = rest.insert(0, e);
        assert forall|a: int, b: int| 0 <= a < b < r.len() implies (#[trigger] r[a]).path
            != (#[trigger] r[b]).path || r[a].modified != r[b].modified by {
            assert(r[b] == whole[b] && r[a] == whole[a]);
            assert(r[b] == rest[b - 1]);
            if a == 0 {
                if any < s.len() {
                    let y = if b - 1 < any {
                        b - 1
                    } else {
                        b
                    };
                    assert(rest[b - 1] == s[y]);
                    if y < any {
                        assert(!is_for::<T>(e.path, e.modified)(s[y]));
                    } else {
                        assert(s[any].path != s[y].path || s[any].modified != s[y].modified);
                    }
                } else {
                    assert(!is_for::<T>(e.path, e.modified)(s[b - 1]));
                }
            } else {
                assert(r[a] == rest[a - 1]);
            }
        }
        assert(r[0] == whole[0]);
    }
    crate::seqs::first_where_unique(r, is_hit::<T>(e.path, e.modified, e.tier), 0);
}

/// What was put in comes out again: the image itself, unless a full image was
/// there and a low one came.
pub proof fn take_gives_what_insert_put<T>(s: Seq<CacheEntryView<T>>, e: CacheEntryView<T>, cap: int)
    requires
        one_per_file(s),
        s.len() <= cap,
        1 <= cap,
    ensures
        ({
            let r = after_insert(s, e, cap);
            let got = r[hit_position(r, e.path, e.modified, e.tier)];
            &&& has_hit(r, e.path, e.modified, e.tier)
            &&& e.tier == Tier::Full ==> got.image == e.image
            &&& !has_hit(s, e.path, e.modified, Tier::Full) ==> got == e
        }),
{
    insertion_law(s, e, cap);
    crate::seqs::first_where_is(s, is_hit::<T>(e.path, e.modified, Tier::Full));
}

/// Putting an image in leaves the images of other file states in the cache, behind the
/// new one and in their order; only the last one leaves, and only from a full cache.
pub proof fn insertion_keeps_others<T>(
    s: Seq<CacheEntryView<T>>,
    e: CacheEntryView<T>,
    cap: int,
    i: int,
)
    requires
        one_per_file(s),
        s.len() <= cap,
        1 <= cap,
        0 <= i < s.len(),
        s[i].path != e.path || s[i].modified != e.modified,
        i + 1 < cap || s.len() < cap,
    ensures
        after_insert(s, e, cap).contains(s[i]),
        after_insert(s, e, cap).len() >= s.len(),
        exists|k: int|
            0 < k <= i + 1 && k < after_insert(s, e, cap).len() && #[trigger] after_insert(
                s,
                e,
                cap,
            )[k] == s[i],
{
    let r = after_insert(s, e, cap);
    let full = hit_position(s, e.path, e.modified, Tier::Full);
    let any = crate::seqs::first_where(s, is_for(e.path, e.modified));
    crate::seqs::first_where_is(s, is_hit::<T>(e.path, e.modified, Tier::Full));
    crate::seqs::first_where_is(s, is_for::<T>(e.path, e.modified));
    let gone = if full < s.len() {
        full
    } else {
        any
    };
    let k = if gone < s.len() && i > gone {
        i
    } else {
        i + 1
    };
    assert(r[k] == s[i]);
}

/// A low image is never given where a full one is asked for, and what is given is
/// for that state of that file. Afterwards the cache has nothing for it.
pub proof fn take_law<T>(
    s: Seq<CacheEntryView<T>>,
    path: Seq<PartView>,
    modified: i128,
    min_tier: Tier,
)
    requires
        one_per_file(s),
        has_hit(s, path, modified, min_tier),
    ensures
        ({
            let got = s[hit_position(s, path, modified, min_tier)];
            &&& got.path == path
            &&& got.modified == modified
            &&& serves(got.tier, min_tier)
            &&& min_tier == Tier::Full ==> got.tier == Tier::Full
        }),
        !has_hit(after_take(s, path, modified, min_tier), path, modified, Tier::Low),
{
    let p = hit_position(s, path, modified, min_tier);
    crate::seqs::first_where_is(s, is_hit::<T>(path, modified, min_tier));
    let r = after_take(s, path, modified, min_tier);
    let f = is_hit::<T>(path, modified, Tier::Low);
    assert forall|i: int| 0 <= i < r.len() implies !f(#[trigger] r[i]) by {
        let x = if i < p {
            i
        } else {
            i + 1
        };
        assert(r[i] == s[x]);
        if x < p {
            assert(s[x].path != s[p].path || s[x].modified != s[p].modified);
        } else {
            assert(s[p].path != s[x].path || s[p].modified != s[x].modified);
        }
    }
    crate::seqs::first_where_unique(r, f, r.len() as int);
}

} // verus!
