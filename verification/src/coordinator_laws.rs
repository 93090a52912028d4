//! What holds of the decode coordinator: what becomes of a decode that lands, what a
//! request shows, and what is decoded ahead.

use vstd::prelude::*;
use crate::coordinator::{
    CommandView, CoordView, JobView, ProgressView, ResponseView, Step, TargetView,
    CACHE_CAPACITY,
};
use crate::model::ItemView;
use crate::nav::{NavView, NavigationDirection};
use crate::path::PartView;
use crate::precache::{CacheEntryView, Tier};
use crate::viewer::SlideDir;

verus! {

/// An entry of the cache is an image of a state of a file.
pub open spec fn is_image_of<T>(e: CacheEntryView<T>, path: Seq<PartView>, modified: i128) -> bool {
    e.path == path && e.modified == modified
}

/// The cache has an image of a state of a file, in full where that is asked for.
pub open spec fn cached<T>(s: CoordView<T>, path: Seq<PartView>, modified: i128, full: bool) -> bool {
    exists|i: int|
        0 <= i < s.cache.len() && is_image_of(#[trigger] s.cache[i], path, modified) && (full
            ==> s.cache[i].tier == Tier::Full)
}

/// A file is being decoded in the background.
pub open spec fn decoding<T>(s: CoordView<T>, path: Seq<PartView>) -> bool {
    exists|k: int| 0 <= k < s.jobs.len() && (#[trigger] s.jobs[k]).path.parts() == path
}

/// What the cache is asked for is what it has.
pub proof fn hits_are_entries<T>(s: CoordView<T>, path: Seq<PartView>, modified: i128)
    ensures
        crate::precache::has_hit(s.cache, path, modified, Tier::Full) <==> cached(
            s,
            path,
            modified,
            true,
        ),
        crate::precache::has_hit(s.cache, path, modified, Tier::Low) <==> cached(
            s,
            path,
            modified,
            false,
        ),
{
    let f = crate::precache::is_hit::<T>(path, modified, Tier::Full);
    let l = crate::precache::is_hit::<T>(path, modified, Tier::Low);
    crate::seqs::first_where_is(s.cache, f);
    crate::seqs::first_where_is(s.cache, l);
    let a = crate::seqs::first_where(s.cache, f);
    let b = crate::seqs::first_where(s.cache, l);
    if a < s.cache.len() {
        assert(is_image_of(s.cache[a], path, modified));
    }
    if b < s.cache.len() {
        assert(is_image_of(s.cache[b], path, modified));
    }
    if cached(s, path, modified, true) {
        let i = choose|i: int|
            0 <= i < s.cache.len() && is_image_of(#[trigger] s.cache[i], path, modified)
                && s.cache[i].tier == Tier::Full;
        assert(f(s.cache[i]));
    }
    if cached(s, path, modified, false) {
        let i = choose|i: int|
            0 <= i < s.cache.len() && is_image_of(#[trigger] s.cache[i], path, modified);
        assert(l(s.cache[i]));
    }
}

proof fn jobs_are_found<T>(s: CoordView<T>, path: Seq<PartView>)
    ensures
        crate::seqs::first_where(s.jobs, crate::coordinator::job_for(path)) < s.jobs.len()
            <==> decoding(s, path),
{
    let f = crate::coordinator::job_for(path);
    crate::seqs::first_where_is(s.jobs, f);
    let k = crate::seqs::first_where(s.jobs, f);
    if k < s.jobs.len() {
        assert(s.jobs[k].path.parts() == path);
    }
    if decoding(s, path) {
        let i = choose|i: int| 0 <= i < s.jobs.len() && (#[trigger] s.jobs[i]).path.parts() == path;
        assert(f(s.jobs[i]));
    }
}

/// An image that lands in the background is in the cache from then on, for the file
/// state it was decoded from and in its quality, whatever job it came from; nothing
/// but the cache changes. A full image is kept as it landed, and so is a low one that
/// no full one stands for. A decode without an image changes nothing at all.
pub proof fn landed_image_is_kept<T>(s: Step<T>, job: JobView, r: ResponseView<T>)
    requires
        s.state.valid(),
    ensures
        ({
            let t = s.job_landed(job, r);
            let path = job.path.parts();
            &&& r.success && r.image is Some ==> {
                &&& crate::precache::has_hit(t.state.cache, path, job.modified, job.tier)
                &&& cached(t.state, path, job.modified, job.tier == Tier::Full)
                &&& t.state.cache.len() > 0
                &&& is_image_of(t.state.cache[0], path, job.modified)
                &&& job.tier == Tier::Full || !cached(s.state, path, job.modified, true)
                    ==> t.state.cache[0].image == r.image->0
                &&& t.state.cache[0].tier == Tier::Full || job.tier == Tier::Low
            }
            &&& !(r.success && r.image is Some) ==> t == s
            &&& t.state == (CoordView { cache: t.state.cache, ..s.state })
            &&& t.state.valid()
        }),
{
    if r.has_image() {
        let e = CacheEntryView {
            path: job.path.parts(),
            modified: job.modified,
            image: r.image->0,
            tier: job.tier,
        };
        crate::precache::insertion_law(s.state.cache, e, CACHE_CAPACITY as int);
        crate::precache::take_gives_what_insert_put(s.state.cache, e, CACHE_CAPACITY as int);
        hits_are_entries(s.state, job.path.parts(), job.modified);
        hits_are_entries(s.job_landed(job, r).state, job.path.parts(), job.modified);
        let c = s.job_landed(job, r).state.cache;
        assert(is_image_of(c[0], job.path.parts(), job.modified));
    }
}

/// An image that lands in the background is shown only to sharpen the image of its file
/// on the screen: a full one that was asked for as that, while its file is still shown.
/// No other landing shows anything.
pub proof fn background_landings_stay_hidden<T>(s: Step<T>, job: JobView, r: ResponseView<T>)
    ensures
        job.tier == Tier::Low || !job.upgrade || s.state.displayed != job.path.parts()
            || !r.success || r.image is None ==> s.job_landed(job, r).commands == s.commands,
        job.tier == Tier::Full && job.upgrade && s.state.displayed == job.path.parts() && r.success
            && r.image is Some ==> s.job_landed(job, r).commands == s.commands.push(
            CommandView::Show(r.image->0, SlideDir::NoSlide),
        ),
{
}

/// Other images stay in the cache when one lands, in their order; only the one not used
/// for longest leaves, and only from a full cache.
pub proof fn landing_keeps_other_images<T>(s: Step<T>, job: JobView, r: ResponseView<T>, i: int)
    requires
        s.state.valid(),
        0 <= i < s.state.cache.len(),
        !is_image_of(s.state.cache[i], job.path.parts(), job.modified),
        i + 1 < CACHE_CAPACITY || s.state.cache.len() < CACHE_CAPACITY,
    ensures
        s.job_landed(job, r).state.cache.contains(s.state.cache[i]),
        s.job_landed(job, r).state.cache.len() >= s.state.cache.len(),
{
    if r.has_image() {
        let e = CacheEntryView {
            path: job.path.parts(),
            modified: job.modified,
            image: r.image->0,
            tier: job.tier,
        };
        crate::precache::insertion_keeps_others(s.state.cache, e, CACHE_CAPACITY as int, i);
    } else {
        assert(s.state.cache.contains(s.state.cache[i]));
    }
}

/// A full image that the cache has is shown at once when it is asked for: as it slides
/// in, with no decode and no number, and it leaves the cache. Nothing else changes but
/// the file on the screen.
pub proof fn cached_image_is_shown_at_once<T>(
    s: Step<T>,
    it: ItemView,
    vp: int,
    dir: SlideDir,
    i: int,
)
    requires
        s.state.valid(),
        !s.state.pending,
        0 <= i < s.state.cache.len(),
        is_image_of(s.state.cache[i], it.path.parts(), it.modified),
        s.state.cache[i].tier == Tier::Full,
    ensures
        ({
            let t = s.current_requested(Some(it), vp, dir);
            &&& t.commands == s.commands.push(CommandView::Show(s.state.cache[i].image, dir))
            &&& t.state == (CoordView {
                cache: s.state.cache.remove(i),
                displayed: it.path.parts(),
                ..s.state
            })
            &&& s.request_number(Some(it)) == 0
        }),
{
    let c = s.state.cache;
    let f = crate::precache::is_hit::<T>(it.path.parts(), it.modified, Tier::Full);
    assert(f(c[i]));
    assert forall|j: int| 0 <= j < i implies !f(#[trigger] c[j]) by {
        assert(c[j].path != c[i].path || c[j].modified != c[i].modified);
    }
    crate::seqs::first_where_unique(c, f, i);
    assert(cached(s.state, it.path.parts(), it.modified, true));
    assert(cached(s.state, it.path.parts(), it.modified, false));
    hits_are_entries(s.state, it.path.parts(), it.modified);
}

/// A neighbour that was decoded ahead in full is shown at once when the user steps to
/// it: the image that landed, sliding in, and no decode.
pub proof fn prefetched_image_is_shown<T>(
    s: Step<T>,
    job: JobView,
    r: ResponseView<T>,
    it: ItemView,
    vp: int,
    dir: SlideDir,
)
    requires
        s.state.valid(),
        !s.state.pending,
        job.tier == Tier::Full,
        job.path.parts() == it.path.parts(),
        job.modified == it.modified,
        r.success,
        r.image is Some,
    ensures
        ({
            let landed = s.job_landed(job, r);
            let t = landed.current_requested(Some(it), vp, dir);
            &&& t.commands == landed.commands.push(CommandView::Show(r.image->0, dir))
            &&& t.state.jobs == s.state.jobs
            &&& t.state.next_id == s.state.next_id
            &&& !t.state.pending
            &&& t.state.displayed == it.path.parts()
            &&& landed.request_number(Some(it)) == 0
        }),
{
    landed_image_is_kept(s, job, r);
    cached_image_is_shown_at_once(s.job_landed(job, r), it, vp, dir, 0);
}

/// A low image that the cache has is shown at once when it is asked for, without a
/// slide; no number is given and nothing is awaited. Beyond that at most the full
/// decode of the same file is started.
pub proof fn cached_low_image_is_shown_at_once<T>(
    s: Step<T>,
    it: ItemView,
    vp: int,
    dir: SlideDir,
    i: int,
)
    requires
        s.state.valid(),
        !s.state.pending,
        0 <= i < s.state.cache.len(),
        is_image_of(s.state.cache[i], it.path.parts(), it.modified),
        s.state.cache[i].tier == Tier::Low,
    ensures
        ({
            let t = s.current_requested(Some(it), vp, dir);
            let shown = s.commands.push(
                CommandView::Show(s.state.cache[i].image, SlideDir::NoSlide),
            );
            &&& t.commands == shown || (t.commands.len() == shown.len() + 1
                && t.commands.drop_last() == shown && (match t.commands.last() {
                CommandView::Decode(d) => d.path == it.path && d.tier == Tier::Full && d.id == 0,
                CommandView::Show(_, _) => false,
            }))
            &&& t.state.cache == s.state.cache.remove(i)
            &&& t.state.displayed == it.path.parts()
            &&& !t.state.pending
            &&& t.state.next_id == s.state.next_id
            &&& t.state.queued == s.state.queued
            &&& s.request_number(Some(it)) == 0
        }),
{
    let c = s.state.cache;
    let f = crate::precache::is_hit::<T>(it.path.parts(), it.modified, Tier::Full);
    let l = crate::precache::is_hit::<T>(it.path.parts(), it.modified, Tier::Low);
    assert(l(c[i]));
    assert forall|j: int| 0 <= j < i implies !l(#[trigger] c[j]) by {
        assert(c[j].path != c[i].path || c[j].modified != c[i].modified);
    }
    crate::seqs::first_where_unique(c, l, i);
    assert forall|j: int| 0 <= j < c.len() implies !f(#[trigger] c[j]) by {
        if j < i {
            assert(c[j].path != c[i].path || c[j].modified != c[i].modified);
        } else if i < j {
            assert(c[i].path != c[j].path || c[i].modified != c[j].modified);
        }
    }
    crate::seqs::first_where_unique(c, f, c.len() as int);
    assert(cached(s.state, it.path.parts(), it.modified, false));
    hits_are_entries(s.state, it.path.parts(), it.modified);
    let t = s.current_requested(Some(it), vp, dir);
    let shown = s.commands.push(CommandView::Show(c[i].image, SlideDir::NoSlide));
    if t.commands.len() > shown.len() {
        assert(t.commands.drop_last() =~= shown);
    }
}

/// An image that the cache does not have is decoded small first: one decode under a new
/// number, within the device's and the low size, that the program waits for. Nothing is
/// shown and nothing else changes.
pub proof fn missing_image_is_decoded_small_first<T>(s: Step<T>, it: ItemView, vp: int, dir: SlideDir)
    requires
        !s.state.pending,
        !cached(s.state, it.path.parts(), it.modified, false),
        s.state.next_id < u64::MAX,
    ensures
        ({
            let t = s.current_requested(Some(it), vp, dir);
            &&& t.commands.len() == s.commands.len() + 1
            &&& t.commands.drop_last() == s.commands
            &&& match t.commands.last() {
                CommandView::Decode(d) => {
                    &&& d.path == it.path
                    &&& d.tier == Tier::Low
                    &&& d.id == s.state.next_id + 1
                    &&& d.width == d.height
                    &&& d.width <= 640 && d.width <= s.state.limit
                    &&& d.width == 640 || d.width == s.state.limit
                    &&& d.direction == SlideDir::NoSlide
                },
                CommandView::Show(_, _) => false,
            }
            &&& t.state == (CoordView {
                pending: true,
                next_id: (s.state.next_id + 1) as u64,
                displayed: it.path.parts(),
                upgrade: Some((it.path, it.modified)),
                ..s.state
            })
            &&& s.request_number(Some(it)) == s.state.next_id + 1
        }),
{
    hits_are_entries(s.state, it.path.parts(), it.modified);
    if cached(s.state, it.path.parts(), it.modified, true) {
        let i = choose|i: int|
            0 <= i < s.state.cache.len() && is_image_of(
                #[trigger] s.state.cache[i],
                it.path.parts(),
                it.modified,
            ) && s.state.cache[i].tier == Tier::Full;
        assert(is_image_of(s.state.cache[i], it.path.parts(), it.modified));
    }
    assert(s.current_requested(Some(it), vp, dir).commands.drop_last() =~= s.commands);
}

/// Without a current image nothing is asked for, and while an image is awaited a
/// request only waits: nothing is shown, decoded or numbered.
pub proof fn idle_requests<T>(s: Step<T>, current: Option<ItemView>, vp: int, dir: SlideDir)
    ensures
        current is None && !s.state.pending ==> s.current_requested(current, vp, dir) == s,
        s.state.pending ==> {
            &&& s.current_requested(current, vp, dir).commands == s.commands
            &&& s.current_requested(current, vp, dir).state == (CoordView {
                queued: seq![dir],
                ..s.state
            })
        },
        current is None || s.state.pending ==> s.request_number(current) == 0,
{
}

/// The image that was awaited is shown when it lands, in the direction it was asked for
/// with, and is then the one on the screen. An answer to an older request, or one
/// without an image, shows nothing and leaves the screen. Either way nothing is awaited
/// any more.
pub proof fn awaited_image_is_shown<T>(s: Step<T>, r: ResponseView<T>)
    ensures
        ({
            let t = s.main_shown(r);
            let answers = r.id == s.state.next_id && r.success && r.image is Some;
            &&& answers ==> t.commands == s.commands.push(
                CommandView::Show(r.image->0, r.direction),
            )
            &&& answers ==> t.state.displayed == r.path
            &&& !answers ==> t.commands == s.commands && t.state.displayed == s.state.displayed
            &&& t.state == (CoordView {
                pending: false,
                displayed: t.state.displayed,
                ..s.state
            })
        }),
{
}

/// Once a small image is on the screen, its full decode is started, unless it runs
/// already; where another file is on the screen by then, none is.
pub proof fn small_image_is_followed_by_full<T>(s: Step<T>, vp: int)
    ensures
        ({
            let t = s.upgrade_followed(vp);
            &&& t.state.upgrade is None
            &&& t.state == (CoordView { jobs: t.state.jobs, upgrade: None, ..s.state })
            &&& match s.state.upgrade {
                Some((p, modified)) => if s.state.displayed == p.parts() {
                    &&& exists|k: int|
                        0 <= k < t.state.jobs.len() && (#[trigger] t.state.jobs[k]).path.same(p)
                            && t.state.jobs[k].tier == Tier::Full && t.state.jobs[k].upgrade
                    &&& t.commands == s.commands || (t.commands.len() == s.commands.len() + 1
                        && t.commands.drop_last() == s.commands && (match t.commands.last() {
                        CommandView::Decode(d) => d.path == p && d.tier == Tier::Full && d.id == 0
                            && d.width == d.height && d.width == crate::precache::full_dim(
                            vp,
                            s.state.limit as int,
                        ) as u32,
                        CommandView::Show(_, _) => false,
                    }))
                    &&& t.state.jobs.len() - s.state.jobs.len() == t.commands.len()
                        - s.commands.len()
                } else {
                    t.commands == s.commands && t.state.jobs == s.state.jobs
                },
                None => t.commands == s.commands && t.state.jobs == s.state.jobs,
            }
        }),
{
    let t = s.upgrade_followed(vp);
    if let Some((p, modified)) = s.state.upgrade {
        if s.state.displayed == p.parts() {
            let f = crate::coordinator::job_at(p.parts(), Tier::Full);
            let k = crate::seqs::first_where(s.state.jobs, f);
            crate::seqs::first_where_is(s.state.jobs, f);
            if k < s.state.jobs.len() {
                assert(t.state.jobs[k].path.same(p));
            } else {
                let n = s.state.jobs.len() as int;
                assert(t.state.jobs[n].path.same(p));
                assert(t.commands.drop_last() =~= s.commands);
            }
        }
    }
}

/// The step that waited is taken as if it were asked for now.
pub proof fn waiting_step_is_taken<T>(s: Step<T>, current: Option<ItemView>, vp: int, dir: SlideDir)
    ensures
        s.state.queued == seq![dir] ==> s.queue_replayed(current, vp) == (Step {
            state: CoordView { queued: Seq::empty(), ..s.state },
            ..s
        }).current_requested(current, vp, dir),
        s.state.queued.len() == 0 ==> s.queue_replayed(current, vp) == s,
{
    if s.state.queued == seq![dir] {
        assert(s.state.queued.drop_first() =~= Seq::empty());
    }
}

proof fn nothing_drained<T>(s: Step<T>, found: Seq<ProgressView<T>>, i: int)
    requires
        0 <= i <= s.state.jobs.len(),
        forall|k: int| i <= k < s.state.jobs.len() ==> (#[trigger] found[k]) is Running,
    ensures
        s.drained(found, i) == s,
    decreases s.state.jobs.len() - i,
{
    if i < s.state.jobs.len() {
        assert(found[i] is Running);
        nothing_drained(s, found, i + 1);
    }
}

proof fn drained_up_to<T>(s: Step<T>, found: Seq<ProgressView<T>>, i: int, k: int)
    requires
        0 <= i <= k < s.state.jobs.len(),
        forall|j: int| i <= j < k ==> (#[trigger] found[j]) is Running,
    ensures
        s.drained(found, i) == s.drained(found, k),
    decreases k - i,
{
    if i < k {
        assert(found[i] is Running);
        drained_up_to(s, found, i + 1, k);
    }
}

/// Where one background decode has landed and all others are running, its job ends, its
/// image is in the cache, and the rest goes on.
pub proof fn one_landing<T>(s: Step<T>, found: Seq<ProgressView<T>>, k: int, r: ResponseView<T>)
    requires
        s.state.valid(),
        found.len() == s.state.jobs.len(),
        0 <= k < found.len(),
        found[k] == ProgressView::Landed(r),
        forall|j: int| 0 <= j < found.len() && j != k ==> (#[trigger] found[j]) is Running,
    ensures
        ({
            let job = s.state.jobs[k];
            let t = s.drained(found, 0);
            &&& t.state.jobs.len() == s.state.jobs.len() - 1
            &&& r.success && r.image is Some ==> cached(
                t.state,
                job.path.parts(),
                job.modified,
                job.tier == Tier::Full,
            )
            &&& r.success && r.image is Some && job.tier == Tier::Full ==> t.state.cache.len() > 0
                && is_image_of(t.state.cache[0], job.path.parts(), job.modified)
                && t.state.cache[0].image == r.image->0
            &&& !(r.success && r.image is Some) ==> t.state.cache == s.state.cache && t.commands
                == s.commands
            &&& t.state == (CoordView { cache: t.state.cache, jobs: t.state.jobs, ..s.state })
        }),
{
    let jobs = s.state.jobs;
    let rest = Step {
        state: CoordView { jobs: crate::seqs::swap_removed(jobs, k), ..s.state },
        ..s
    };
    let left = crate::seqs::swap_removed(found, k);
    let next = rest.job_landed(jobs[k], r);
    drained_up_to(s, found, 0, k);
    assert(s.drained(found, k) == next.drained(left, k));
    assert forall|j: int| k <= j < next.state.jobs.len() implies (#[trigger] left[j]) is Running by {
        let from = if j == k {
            found.len() - 1
        } else {
            j
        };
        assert(left[j] == found[from]);
    }
    nothing_drained(next, left, k);
    let kept = rest.state.jobs;
    assert forall|a: int, b: int| 0 <= a < b < kept.len() implies (
    #[trigger] kept[a]).path.parts() != (#[trigger] kept[b]).path.parts() || kept[a].tier
        != kept[b].tier by {
        let x = if a == k {
            jobs.len() - 1
        } else {
            a
        };
        let y = if b == k {
            jobs.len() - 1
        } else {
            b
        };
        assert(kept[a] == jobs[x] && kept[b] == jobs[y]);
    }
    landed_image_is_kept(rest, jobs[k], r);
}

/// A look that finds everything running changes nothing, and one that finds the awaited
/// decode ended without an answer only stops waiting for it.
pub proof fn quiet_looks<T>(
    s: Step<T>,
    current: Option<ItemView>,
    vp: int,
    found: Seq<ProgressView<T>>,
    main: ProgressView<T>,
)
    requires
        forall|k: int| 0 <= k < s.state.jobs.len() ==> (#[trigger] found[k]) is Running,
    ensures
        main is Running || !s.state.pending ==> s.polled(current, vp, found, main) == s,
        main is Closed ==> s.polled(current, vp, found, main) == (Step {
            state: CoordView { pending: false, ..s.state },
            ..s
        }),
{
    nothing_drained(s, found, 0);
    assert(s.state == (CoordView { pending: s.state.pending, ..s.state }));
}

/// Where only the awaited image has landed, it is shown first of all, and then
/// everything follows: its full decode, and the step that waited.
pub proof fn awaited_landing<T>(
    s: Step<T>,
    current: Option<ItemView>,
    vp: int,
    found: Seq<ProgressView<T>>,
    r: ResponseView<T>,
)
    requires
        s.state.pending,
        r.id == s.state.next_id,
        r.success,
        r.image is Some,
        s.state.queued.len() == 0,
        forall|k: int| 0 <= k < s.state.jobs.len() ==> (#[trigger] found[k]) is Running,
    ensures
        ({
            let t = s.polled(current, vp, found, ProgressView::Landed(r));
            &&& t.commands.len() > s.commands.len()
            &&& t.commands[s.commands.len() as int] == CommandView::Show(r.image->0, r.direction)
            &&& t.state.displayed == r.path
            &&& !t.state.pending
            &&& s.landed_number(ProgressView::Landed(r)) == Some(r.id)
            &&& s.lands(ProgressView::Landed(r))
            &&& match s.state.upgrade {
                Some((p, modified)) => r.path == p.parts() ==> exists|k: int|
                    0 <= k < t.state.jobs.len() && (#[trigger] t.state.jobs[k]).path.same(p)
                        && t.state.jobs[k].tier == Tier::Full && t.state.jobs[k].upgrade,
                None => true,
            }
        }),
{
    nothing_drained(s, found, 0);
    let m = s.main_shown(r);
    small_image_is_followed_by_full(m, vp);
    waiting_step_is_taken(m.upgrade_followed(vp), current, vp, SlideDir::NoSlide);
}

/// Warming an image leaves it in the cache in its quality or being decoded. A decode is
/// started only where neither was so before: for that file state, in that quality and
/// its size, and not to be shown. Otherwise nothing changes.
pub proof fn warmed_image<T>(s: Step<T>, t: TargetView, vp: int)
    ensures
        ({
            let w = s.target_warmed(t, vp);
            let path = t.path.parts();
            let there = cached(s.state, path, t.modified, t.tier == Tier::Full) || decoding(
                s.state,
                path,
            );
            &&& cached(w.state, path, t.modified, t.tier == Tier::Full) || decoding(w.state, path)
            &&& there ==> w == s
            &&& !there ==> {
                &&& w.state.jobs == s.state.jobs.push(
                    JobView { path: t.path, modified: t.modified, tier: t.tier, upgrade: false },
                )
                &&& w.state == (CoordView { jobs: w.state.jobs, ..s.state })
                &&& w.commands.len() == s.commands.len() + 1
                &&& w.commands.drop_last() == s.commands
                &&& match w.commands.last() {
                    CommandView::Decode(d) => {
                        &&& d.path == t.path
                        &&& d.tier == t.tier
                        &&& d.id == 0
                        &&& d.width == d.height
                        &&& t.tier == Tier::Full ==> d.width == crate::precache::full_dim(
                            vp,
                            s.state.limit as int,
                        ) as u32
                        &&& t.tier == Tier::Low ==> d.width <= 640 && (d.width == 640 || d.width
                            == s.state.limit)
                    },
                    CommandView::Show(_, _) => false,
                }
            }
        }),
{
    hits_are_entries(s.state, t.path.parts(), t.modified);
    jobs_are_found(s.state, t.path.parts());
    let w = s.target_warmed(t, vp);
    if w.commands.len() > s.commands.len() {
        assert(w.commands.drop_last() =~= s.commands);
        let n = s.state.jobs.len() as int;
        assert(w.state.jobs[n].path.parts() == t.path.parts());
    }
}

/// Of a list of images every one is warmed.
pub proof fn all_are_warmed<T>(s: Step<T>, targets: Seq<TargetView>, n: int, vp: int, i: int)
    requires
        0 <= i < n <= targets.len(),
    ensures
        ({
            let t = s.targets_warmed(targets, n, vp).state;
            let g = targets[i];
            cached(t, g.path.parts(), g.modified, g.tier == Tier::Full) || decoding(
                t,
                g.path.parts(),
            )
        }),
    decreases n,
{
    let m = s.targets_warmed(targets, n - 1, vp);
    let g = targets[i];
    warmed_image(m, targets[n - 1], vp);
    if i < n - 1 {
        all_are_warmed(s, targets, n - 1, vp, i);
        let t = m.target_warmed(targets[n - 1], vp);
        if decoding(m.state, g.path.parts()) {
            let k = choose|k: int|
                0 <= k < m.state.jobs.len() && (#[trigger] m.state.jobs[k]).path.parts()
                    == g.path.parts();
            assert(t.state.jobs[k] == m.state.jobs[k]);
        }
    }
}

/// The images decoded ahead are those that one step in either direction leads to, in
/// full, and those that two steps lead to, small; nearest first, and no others.
pub proof fn neighbours_are_those_of_the_steps(nav: NavView)
    requires
        nav.valid(),
        nav.items.len() > 0,
    ensures
        ({
            let n = crate::coordinator::neighbours(nav.items, nav.index);
            let forward = nav.moved(NavigationDirection::Next);
            let back = nav.moved(NavigationDirection::Previous);
            &&& n.len() == 4
            &&& n[0].path == back.current()->0.path && n[0].modified == back.current()->0.modified
            &&& n[1].path == forward.current()->0.path && n[1].modified
                == forward.current()->0.modified
            &&& n[2].path == back.moved(NavigationDirection::Previous).current()->0.path
            &&& n[2].modified == back.moved(NavigationDirection::Previous).current()->0.modified
            &&& n[3].path == forward.moved(NavigationDirection::Next).current()->0.path
            &&& n[3].modified == forward.moved(NavigationDirection::Next).current()->0.modified
            &&& n[0].tier == Tier::Full && n[1].tier == Tier::Full
            &&& n[2].tier == Tier::Low && n[3].tier == Tier::Low
        }),
{
    let len = nav.items.len() as int;
    let i = nav.index;
    crate::nav::navigation_stays_valid(
        nav,
        NavigationDirection::Next,
        0,
        crate::path::PathView::empty(),
        crate::fs::ListingView::NotADirectory,
    );
    crate::nav::navigation_stays_valid(
        nav,
        NavigationDirection::Previous,
        0,
        crate::path::PathView::empty(),
        crate::fs::ListingView::NotADirectory,
    );
    let f = nav.moved(NavigationDirection::Next).index;
    let b = nav.moved(NavigationDirection::Previous).index;
    assert((i + len - 1) % len == (i + (-1)) % len) by (nonlinear_arith)
        requires
            len > 0,
    ;
    assert((f + 1) % len == (i + 2) % len) by (nonlinear_arith)
        requires
            len > 0,
            f == (i + 1) % len,
    ;
    assert((b + len - 1) % len == (i + (-2)) % len) by (nonlinear_arith)
        requires
            len > 0,
            b == (i + len - 1) % len,
    ;
    assert(0 <= (i + 2) % len < len) by (nonlinear_arith)
        requires
            len > 0,
    ;
    assert(0 <= (i + (-2)) % len < len) by (nonlinear_arith)
        requires
            len > 0,
    ;
}

/// After the neighbours were warmed, a step in either direction leads to an image that
/// the cache has in full or that is being decoded.
pub proof fn steps_lead_to_warm_images<T>(s: Step<T>, nav: NavView, vp: int, dir: NavigationDirection)
    requires
        nav.valid(),
        nav.items.len() > 0,
        dir == NavigationDirection::Next || dir == NavigationDirection::Previous,
    ensures
        ({
            let n = crate::coordinator::neighbours(nav.items, nav.index);
            let t = s.targets_warmed(n, n.len() as int, vp).state;
            let it = nav.moved(dir).current()->0;
            cached(t, it.path.parts(), it.modified, true) || decoding(t, it.path.parts())
        }),
{
    let n = crate::coordinator::neighbours(nav.items, nav.index);
    neighbours_are_those_of_the_steps(nav);
    all_are_warmed(s, n, 4, vp, 0);
    all_are_warmed(s, n, 4, vp, 1);
}

/// Once the awaited image has landed, the neighbours are warmed in the same look; no
/// other look starts them.
pub proof fn neighbours_follow_the_landing<T>(
    s: Step<T>,
    nav: NavView,
    vp: int,
    found: Seq<ProgressView<T>>,
    main: ProgressView<T>,
    dir: NavigationDirection,
)
    requires
        nav.valid(),
        nav.items.len() > 0,
        dir == NavigationDirection::Next || dir == NavigationDirection::Previous,
    ensures
        ({
            let n = crate::coordinator::neighbours(nav.items, nav.index);
            let t = s.advanced(nav.current(), vp, found, main, n).state;
            let it = nav.moved(dir).current()->0;
            &&& s.state.pending && main is Landed ==> cached(
                t,
                it.path.parts(),
                it.modified,
                true,
            ) || decoding(t, it.path.parts())
            &&& !(s.state.pending && main is Landed) ==> s.advanced(
                nav.current(),
                vp,
                found,
                main,
                n,
            ) == s.polled(nav.current(), vp, found, main)
        }),
{
    steps_lead_to_warm_images(s.polled(nav.current(), vp, found, main), nav, vp, dir);
}

/// The size of a full decode: what the viewport calls for, twice its longer side, unless
/// that is below the least or above what is allowed. It grows with the viewport, and no
/// decode is larger than the device's textures.
pub proof fn sizes_fit_the_viewport(vp: int, wider: int, limit: int)
    requires
        0 <= vp <= wider,
        limit >= 1,
    ensures
        ({
            let d = crate::precache::full_dim(vp, limit);
            &&& 1 <= d <= limit && d <= 4096
            &&& d >= 1080 || d == limit
            &&& 1080 <= 2 * vp <= 4096 && 2 * vp <= limit ==> d == 2 * vp
            &&& 2 * vp < 1080 <= limit ==> d == 1080
            &&& 2 * vp >= 4096 && limit >= 4096 ==> d == 4096
            &&& d <= crate::precache::full_dim(wider, limit)
        }),
        1 <= crate::precache::low_dim(limit) <= limit,
        crate::precache::low_dim(limit) <= 640,
        limit >= 640 ==> crate::precache::low_dim(limit) == 640,
{
}

/// The longer side of a viewport is one of its sides, and none is longer.
pub proof fn longer_side_is_longest(viewport: (u32, u32))
    ensures
        crate::coordinator::longer_side(viewport) >= viewport.0,
        crate::coordinator::longer_side(viewport) >= viewport.1,
        crate::coordinator::longer_side(viewport) == viewport.0
            || crate::coordinator::longer_side(viewport) == viewport.1,
{
}

/// A full image serves whatever is asked for, a low one only where a low one is enough.
pub proof fn full_serves_all(want: Tier)
    ensures
        crate::precache::serves(Tier::Full, want),
        crate::precache::serves(Tier::Low, want) <==> want == Tier::Low,
{
}

/// One of the first images of a cache is of one file state, and in full where that is
/// asked for.
pub open spec fn held_within<T>(
    c: Seq<CacheEntryView<T>>,
    path: Seq<PartView>,
    modified: i128,
    full: bool,
    p: int,
) -> bool {
    exists|i: int|
        0 <= i <= p && i < c.len() && is_image_of(#[trigger] c[i], path, modified) && (full
            ==> c[i].tier == Tier::Full)
}

/// How many of the jobs from `i` up to `n` are found to have landed.
pub open spec fn landings<T>(found: Seq<ProgressView<T>>, i: int, n: int) -> int
    decreases n - i,
{
    if n <= i {
        0
    } else {
        landings(found, i, n - 1) + if found[n - 1] is Landed {
            1int
        } else {
            0int
        }
    }
}

proof fn landings_are_counted<T>(
    a: Seq<ProgressView<T>>,
    b: Seq<ProgressView<T>>,
    i: int,
    n: int,
)
    requires
        0 <= i <= n,
        forall|k: int| i < k < n ==> (#[trigger] a[k]) == b[k],
    ensures
        landings(a, i, n) >= 0,
        i < n ==> landings(a, i, n) - (if a[i] is Landed {
            1int
        } else {
            0int
        }) == landings(b, i, n) - (if b[i] is Landed {
            1int
        } else {
            0int
        }),
        i < n ==> landings(a, i, n) == landings(a, i + 1, n) + (if a[i] is Landed {
            1int
        } else {
            0int
        }),
    decreases n - i,
{
    if i + 1 < n {
        assert(a[n - 1] == b[n - 1]);
        landings_are_counted(a, b, i, n - 1);
    } else if i + 1 == n {
        assert(landings(a, i, i) == 0 && landings(b, i, i) == 0);
        assert(landings(a, i + 1, n) == 0);
    }
}

proof fn landings_after_removal<T>(found: Seq<ProgressView<T>>, i: int)
    requires
        0 <= i < found.len(),
    ensures
        ({
            let left = crate::seqs::swap_removed(found, i);
            landings(found, i, found.len() as int) == landings(left, i, left.len() as int) + (
            if found[i] is Landed {
                1int
            } else {
                0int
            })
        }),
{
    let n = found.len() as int;
    let left = crate::seqs::swap_removed(found, i);
    assert(left.len() == n - 1);
    if i < n - 1 {
        assert forall|k: int| i < k < n - 1 implies (#[trigger] found[k]) == left[k] by {}
        assert(left[i] == found[n - 1]);
        landings_are_counted(found, left, i, n - 1);
    } else {
        assert(landings(found, i, i) == 0);
        assert(landings(left, i, n - 1) == 0);
    }
}

proof fn insertion_moves_back_by_one<T>(
    c: Seq<CacheEntryView<T>>,
    e: CacheEntryView<T>,
    path: Seq<PartView>,
    modified: i128,
    full: bool,
    p: int,
)
    requires
        crate::precache::one_per_file(c),
        c.len() <= CACHE_CAPACITY,
        held_within(c, path, modified, full, p),
        p + 1 < CACHE_CAPACITY,
    ensures
        held_within(
            crate::precache::after_insert(c, e, CACHE_CAPACITY as int),
            path,
            modified,
            full,
            p + 1,
        ),
{
    let r = crate::precache::after_insert(c, e, CACHE_CAPACITY as int);
    let i = choose|i: int|
        0 <= i <= p && i < c.len() && is_image_of(#[trigger] c[i], path, modified) && (full
            ==> c[i].tier == Tier::Full);
    let f = crate::precache::is_hit::<T>(e.path, e.modified, Tier::Full);
    let g = crate::precache::is_for::<T>(e.path, e.modified);
    crate::seqs::first_where_is(c, f);
    crate::seqs::first_where_is(c, g);
    let a = crate::seqs::first_where(c, f);
    let b = crate::seqs::first_where(c, g);
    let own = path == e.path && modified == e.modified;
    if a < c.len() {
        assert(f(c[a]));
        if own {
            assert(r[0].path == path && r[0].modified == modified && r[0].tier == Tier::Full);
            assert(is_image_of(r[0], path, modified));
        } else if i < a {
            assert(r[i + 1] == c[i]);
        } else {
            assert(i != a);
            assert(r[i] == c[i]);
        }
    } else if own {
        assert(r[0] == e);
        assert(is_image_of(r[0], path, modified));
        if full {
            assert(f(c[i]));
            assert(false);
        }
    } else if b < c.len() {
        assert(g(c[b]));
        if i < b {
            assert(r[i + 1] == c[i]);
        } else {
            assert(i != b);
            assert(r[i] == c[i]);
        }
    } else {
        assert(r[i + 1] == c[i]);
    }
}

proof fn drain_keeps_images<T>(
    s: Step<T>,
    found: Seq<ProgressView<T>>,
    i: int,
    path: Seq<PartView>,
    modified: i128,
    full: bool,
    p: int,
)
    requires
        s.state.valid(),
        found.len() == s.state.jobs.len(),
        0 <= i <= found.len(),
        held_within(s.state.cache, path, modified, full, p),
        p + landings(found, i, found.len() as int) < CACHE_CAPACITY,
    ensures
        held_within(
            s.drained(found, i).state.cache,
            path,
            modified,
            full,
            p + landings(found, i, found.len() as int),
        ),
    decreases s.state.jobs.len() - i,
{
    let n = found.len() as int;
    let jobs = s.state.jobs;
    if i < n {
        landings_are_counted(found, found, i, n);
        if found[i] is Running {
            drain_keeps_images(s, found, i + 1, path, modified, full, p);
        } else {
            let rest = Step {
                state: CoordView { jobs: crate::seqs::swap_removed(jobs, i), ..s.state },
                ..s
            };
            let left = crate::seqs::swap_removed(found, i);
            landings_after_removal(found, i);
            jobs_stay_one_per_quality(jobs, i);
            if i < n - 1 {
                landings_are_counted(left, left, i, n - 1);
            }
            match found[i] {
                ProgressView::Landed(r) => {
                    landed_image_is_kept(rest, jobs[i], r);
                    let next = rest.job_landed(jobs[i], r);
                    if r.has_image() {
                        let e = CacheEntryView {
                            path: jobs[i].path.parts(),
                            modified: jobs[i].modified,
                            image: r.image->0,
                            tier: jobs[i].tier,
                        };
                        insertion_moves_back_by_one(
                            rest.state.cache,
                            e,
                            path,
                            modified,
                            full,
                            p,
                        );
                    } else {
                        held_within_more(rest.state.cache, path, modified, full, p, p + 1);
                    }
                    drain_keeps_images(next, left, i, path, modified, full, p + 1);
                },
                _ => {
                    drain_keeps_images(rest, left, i, path, modified, full, p);
                },
            }
        }
    }
}

proof fn held_within_more<T>(
    c: Seq<CacheEntryView<T>>,
    path: Seq<PartView>,
    modified: i128,
    full: bool,
    p: int,
    q: int,
)
    requires
        held_within(c, path, modified, full, p),
        p <= q,
    ensures
        held_within(c, path, modified, full, q),
{
    let i = choose|i: int|
        0 <= i <= p && i < c.len() && is_image_of(#[trigger] c[i], path, modified) && (full
            ==> c[i].tier == Tier::Full);
    assert(is_image_of(c[i], path, modified));
}

proof fn jobs_stay_one_per_quality(jobs: Seq<JobView>, i: int)
    requires
        crate::coordinator::one_per_quality(jobs),
        0 <= i < jobs.len(),
    ensures
        crate::coordinator::one_per_quality(crate::seqs::swap_removed(jobs, i)),
{
    let r = crate::seqs::swap_removed(jobs, i);
    let last = jobs.len() - 1;
    assert forall|a: int, b: int| 0 <= a < b < r.len() implies (#[trigger] r[a]).path.parts() != (
    #[trigger] r[b]).path.parts() || r[a].tier != r[b].tier by {
        let x = if a == i {
            last
        } else {
            a
        };
        let y = if b == i {
            last
        } else {
            b
        };
        assert(r[a] == jobs[x] && r[b] == jobs[y]);
        if x < y {
            assert(jobs[x].path.parts() != jobs[y].path.parts() || jobs[x].tier != jobs[y].tier);
        } else {
            assert(jobs[y].path.parts() != jobs[x].path.parts() || jobs[y].tier != jobs[x].tier);
        }
    }
}

proof fn drain_takes_images_in<T>(
    s: Step<T>,
    found: Seq<ProgressView<T>>,
    i: int,
    k: int,
    r: ResponseView<T>,
)
    requires
        s.state.valid(),
        found.len() == s.state.jobs.len(),
        0 <= i <= k < found.len(),
        found[k] == ProgressView::Landed(r),
        r.success,
        r.image is Some,
        landings(found, i, found.len() as int) <= CACHE_CAPACITY,
    ensures
        held_within(
            s.drained(found, i).state.cache,
            s.state.jobs[k].path.parts(),
            s.state.jobs[k].modified,
            s.state.jobs[k].tier == Tier::Full,
            CACHE_CAPACITY as int,
        ),
    decreases s.state.jobs.len() - i,
{
    let n = found.len() as int;
    let jobs = s.state.jobs;
    let job = jobs[k];
    landings_are_counted(found, found, i, n);
    if found[i] is Running {
        drain_takes_images_in(s, found, i + 1, k, r);
    } else {
        let rest = Step {
            state: CoordView { jobs: crate::seqs::swap_removed(jobs, i), ..s.state },
            ..s
        };
        let left = crate::seqs::swap_removed(found, i);
        landings_after_removal(found, i);
        jobs_stay_one_per_quality(jobs, i);
        let next = match found[i] {
            ProgressView::Landed(x) => rest.job_landed(jobs[i], x),
            _ => rest,
        };
        if let ProgressView::Landed(x) = found[i] {
            landed_image_is_kept(rest, jobs[i], x);
        }
        if k == i {
            let c = next.state.cache;
            assert(is_image_of(c[0], job.path.parts(), job.modified));
            assert(held_within(c, job.path.parts(), job.modified, job.tier == Tier::Full, 0));
            if i < n - 1 {
                landings_are_counted(left, left, i, n - 1);
            }
            drain_keeps_images(
                next,
                left,
                i,
                job.path.parts(),
                job.modified,
                job.tier == Tier::Full,
                0,
            );
            held_within_more(
                s.drained(found, i).state.cache,
                job.path.parts(),
                job.modified,
                job.tier == Tier::Full,
                landings(left, i, n - 1),
                CACHE_CAPACITY as int,
            );
        } else {
            let to = if k == n - 1 {
                i
            } else {
                k
            };
            assert(left[to] == found[k]);
            assert(next.state.jobs[to] == jobs[k]);
            drain_takes_images_in(next, left, i, to, r);
        }
    }
}

/// Of several background decodes that landed at once, no more than the cache holds, the
/// image of each is in the cache afterwards, for its file state and in its quality.
pub proof fn all_landings_are_kept<T>(
    s: Step<T>,
    found: Seq<ProgressView<T>>,
    k: int,
    r: ResponseView<T>,
)
    requires
        s.state.valid(),
        found.len() == s.state.jobs.len(),
        0 <= k < found.len(),
        found[k] == ProgressView::Landed(r),
        r.success,
        r.image is Some,
        landings(found, 0, found.len() as int) <= 5,
    ensures
        ({
            let job = s.state.jobs[k];
            cached(
                s.drained(found, 0).state,
                job.path.parts(),
                job.modified,
                job.tier == Tier::Full,
            )
        }),
{
    let job = s.state.jobs[k];
    drain_takes_images_in(s, found, 0, k, r);
    let c = s.drained(found, 0).state.cache;
    let i = choose|i: int|
        0 <= i <= CACHE_CAPACITY && i < c.len() && is_image_of(
            #[trigger] c[i],
            job.path.parts(),
            job.modified,
        ) && (job.tier == Tier::Full ==> c[i].tier == Tier::Full);
    assert(is_image_of(c[i], job.path.parts(), job.modified));
}

/// A look takes in the background decodes first, and then the awaited one: it is the same
/// as a look at the one, and after that a look that finds all others running.
pub proof fn background_comes_first<T>(
    s: Step<T>,
    current: Option<ItemView>,
    vp: int,
    found: Seq<ProgressView<T>>,
    running: Seq<ProgressView<T>>,
    main: ProgressView<T>,
)
    requires
        forall|k: int|
            0 <= k < s.drained(found, 0).state.jobs.len() ==> (#[trigger] running[k]) is Running,
    ensures
        s.polled(current, vp, found, main) == s.polled(
            current,
            vp,
            found,
            ProgressView::Running,
        ).polled(current, vp, running, main),
        !s.state.pending ==> s.polled(current, vp, found, main) == s.drained(found, 0),
{
    let d = s.drained(found, 0);
    drain_keeps_waiting(s, found, 0);
    nothing_drained(d, running, 0);
}

proof fn drain_keeps_waiting<T>(s: Step<T>, found: Seq<ProgressView<T>>, i: int)
    ensures
        s.drained(found, i).state.pending == s.state.pending,
    decreases s.state.jobs.len() - i,
{
    if 0 <= i < s.state.jobs.len() {
        let rest = Step {
            state: CoordView { jobs: crate::seqs::swap_removed(s.state.jobs, i), ..s.state },
            ..s
        };
        let left = crate::seqs::swap_removed(found, i);
        match found[i] {
            ProgressView::Running => drain_keeps_waiting(s, found, i + 1),
            ProgressView::Closed => drain_keeps_waiting(rest, left, i),
            ProgressView::Landed(r) => drain_keeps_waiting(
                rest.job_landed(s.state.jobs[i], r),
                left,
                i,
            ),
        }
    }
}

/// A step that was asked for while an image was awaited is taken once that has landed: as
/// if the step came right after the landing.
pub proof fn waiting_step_follows_the_landing<T>(
    s: Step<T>,
    current: Option<ItemView>,
    vp: int,
    found: Seq<ProgressView<T>>,
    r: ResponseView<T>,
    dir: SlideDir,
)
    requires
        s.state.pending,
        s.state.queued.len() == 0,
        forall|k: int| 0 <= k < s.state.jobs.len() ==> (#[trigger] found[k]) is Running,
    ensures
        s.current_requested(current, vp, dir).polled(
            current,
            vp,
            found,
            ProgressView::Landed(r),
        ) == s.polled(current, vp, found, ProgressView::Landed(r)).current_requested(
            current,
            vp,
            dir,
        ),
{
    let w = s.current_requested(current, vp, dir);
    nothing_drained(s, found, 0);
    nothing_drained(w, found, 0);
    let a = s.main_shown(r).upgrade_followed(vp);
    let b = w.main_shown(r).upgrade_followed(vp);
    assert(b.state.queued == seq![dir]);
    assert(b.state.queued.drop_first() =~= Seq::<SlideDir>::empty());
    assert(a.state.queued =~= Seq::<SlideDir>::empty());
    assert(a.queue_replayed(current, vp) == a);
    assert((CoordView { queued: Seq::<SlideDir>::empty(), ..b.state }) =~= a.state);
    assert((Step { state: CoordView { queued: Seq::<SlideDir>::empty(), ..b.state }, ..b }) =~= a);
}

} // verus!
