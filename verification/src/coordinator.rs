//! The decode coordinator: which image is decoded next, at what size, and what is
//! shown when a decode lands.
//!
//! A request for the current image is answered from the cache where possible. A
//! full image is shown at once; a low one is shown and a full decode is started to
//! replace it. Where the cache has nothing, a low decode is started first. While
//! that is running, further requests overwrite each other, so that a held key
//! follows the hand.

use vstd::prelude::*;
use std::collections::VecDeque;
use std::sync::Arc;
use crate::decode::ImageLoadResult;
use crate::model::ItemView;
use crate::nav::NavigationService;
use crate::path::{FilePath, PartView, PathView};
use crate::precache::{full_clamp, low_clamp, CacheEntryView, PredecodeCache, Tier};
use crate::viewer::SlideDir;

verus! {

/// How many images the cache of the coordinator holds.
pub const CACHE_CAPACITY: usize = 5;

/// A decode that runs in the background.
pub struct PrefetchJob {
    pub path: FilePath,
    pub modified: i128,
    pub tier: Tier,
    /// The result replaces the image on the screen, where that is still this file.
    pub upgrade: bool,
}

/// The mathematical counterpart of [`PrefetchJob`].
#[verifier::ext_equal]
pub struct JobView {
    pub path: PathView,
    pub modified: i128,
    pub tier: Tier,
    pub upgrade: bool,
}

impl View for PrefetchJob {
    type V = JobView;

    open spec fn view(&self) -> JobView {
        JobView {
            path: self.path@,
            modified: self.modified,
            tier: self.tier,
            upgrade: self.upgrade,
        }
    }
}

/// A decode to start. A number other than zero marks the decode of the current image.
#[derive(Debug)]
pub struct DecodeRequest {
    pub path: FilePath,
    pub tier: Tier,
    pub width: u32,
    pub height: u32,
    pub direction: SlideDir,
    pub id: u64,
}

/// The mathematical counterpart of [`DecodeRequest`].
#[verifier::ext_equal]
pub struct RequestView {
    pub path: PathView,
    pub tier: Tier,
    pub width: u32,
    pub height: u32,
    pub direction: SlideDir,
    pub id: u64,
}

/// What the program has to do.
pub enum Command<T> {
    /// Show an image.
    Show(Arc<T>, SlideDir),
    /// Start a decode.
    Decode(DecodeRequest),
}

/// The mathematical counterpart of [`Command`].
#[verifier::reject_recursive_types(T)]
#[verifier::ext_equal]
pub enum CommandView<T> {
    Show(Arc<T>, SlideDir),
    Decode(RequestView),
}

impl<T> View for Command<T> {
    type V = CommandView<T>;

    open spec fn view(&self) -> CommandView<T> {
        match self {
            Command::Show(img, dir) => CommandView::Show(*img, *dir),
            Command::Decode(r) => CommandView::Decode(
                RequestView {
                    path: r.path@,
                    tier: r.tier,
                    width: r.width,
                    height: r.height,
                    direction: r.direction,
                    id: r.id,
                },
            ),
        }
    }
}

/// A decode that has landed. The image is missing where the decode failed or its
/// pixels could not be uploaded.
pub struct DecodeResponse<T> {
    pub id: u64,
    pub path: FilePath,
    pub result: ImageLoadResult,
    pub direction: SlideDir,
    pub gpu_image: Option<Arc<T>>,
}

/// The mathematical counterpart of [`DecodeResponse`].
#[verifier::reject_recursive_types(T)]
pub struct ResponseView<T> {
    pub id: u64,
    pub path: Seq<PartView>,
    pub success: bool,
    pub direction: SlideDir,
    pub image: Option<Arc<T>>,
}

/// What a look at a running decode found.
pub enum Progress<T> {
    /// It is still running.
    Running,
    /// It ended without an answer.
    Closed,
    /// It has landed.
    Landed(DecodeResponse<T>),
}

/// The mathematical counterpart of [`Progress`].
#[verifier::reject_recursive_types(T)]
pub enum ProgressView<T> {
    Running,
    Closed,
    Landed(ResponseView<T>),
}

impl<T> View for Progress<T> {
    type V = ProgressView<T>;

    open spec fn view(&self) -> ProgressView<T> {
        match self {
            Progress::Running => ProgressView::Running,
            Progress::Closed => ProgressView::Closed,
            Progress::Landed(r) => ProgressView::Landed(
                ResponseView {
                    id: r.id,
                    path: r.path@.parts(),
                    success: r.result.is_success,
                    direction: r.direction,
                    image: r.gpu_image,
                },
            ),
        }
    }
}

impl<T> ResponseView<T> {
    /// The decode gave an image.
    pub open spec fn has_image(self) -> bool {
        self.success && self.image is Some
    }
}

/// The state of the coordinator.
#[verifier::reject_recursive_types(T)]
#[verifier::ext_equal]
pub struct CoordView<T> {
    /// The largest texture of the device.
    pub limit: u32,
    /// The number of the last decode of a current image.
    pub next_id: u64,
    /// That decode is running.
    pub pending: bool,
    /// The step that waits for it.
    pub queued: Seq<SlideDir>,
    /// The decodes in the background.
    pub jobs: Seq<JobView>,
    /// The decoded images.
    pub cache: Seq<CacheEntryView<T>>,
    /// The file on the screen.
    pub displayed: Seq<PartView>,
    /// The file state whose low image is being decoded and whose full image is to
    /// follow.
    pub upgrade: Option<(PathView, i128)>,
}

/// A state, and the commands given on the way to it.
#[verifier::reject_recursive_types(T)]
#[verifier::ext_equal]
pub struct Step<T> {
    pub state: CoordView<T>,
    pub commands: Seq<CommandView<T>>,
}

/// A job is for a file.
pub open spec fn job_for(path: Seq<PartView>) -> spec_fn(JobView) -> bool {
    |j: JobView| j.path.parts() == path
}

/// A job is for a file at a quality.
pub open spec fn job_at(path: Seq<PartView>, tier: Tier) -> spec_fn(JobView) -> bool {
    |j: JobView| j.path.parts() == path && j.tier == tier
}

/// The size of a decode.
pub open spec fn decode_dim(tier: Tier, vp: int, limit: u32) -> u32 {
    match tier {
        Tier::Full => crate::precache::full_dim(vp, limit as int) as u32,
        Tier::Low => crate::precache::low_dim(limit as int) as u32,
    }
}

/// A background decode of a file at a size.
pub open spec fn background<T>(path: PathView, tier: Tier, dim: u32) -> CommandView<T> {
    CommandView::Decode(
        RequestView { path, tier, width: dim, height: dim, direction: SlideDir::NoSlide, id: 0 },
    )
}

/// What is warmed ahead: a file state and the quality to decode it at.
pub struct TargetView {
    pub path: PathView,
    pub modified: i128,
    pub tier: Tier,
}

/// The image a number of places before or after the current one, counted round the ends.
pub open spec fn neighbour(items: Seq<ItemView>, index: int, offset: int, tier: Tier) -> TargetView {
    let at = (index + offset) % items.len() as int;
    TargetView { path: items[at].path, modified: items[at].modified, tier }
}

/// The images around the current one, nearest first: the next ones in full, the
/// ones behind them low.
pub open spec fn neighbours(items: Seq<ItemView>, index: int) -> Seq<TargetView> {
    if items.len() == 0 {
        Seq::empty()
    } else {
        seq![
            neighbour(items, index, -1, Tier::Full),
            neighbour(items, index, 1, Tier::Full),
            neighbour(items, index, -2, Tier::Low),
            neighbour(items, index, 2, Tier::Low),
        ]
    }
}

impl<T> Step<T> {
    /// One more command is given.
    pub open spec fn with(self, c: CommandView<T>) -> Step<T> {
        Step { commands: self.commands.push(c), ..self }
    }

    /// A full decode of the file on the screen is asked for. A full job that runs for
    /// the file already is marked; otherwise one is started, whatever low job runs.
    pub open spec fn upgrade_requested(self, path: PathView, modified: i128, vp: int) -> Step<T> {
        let s = self.state;
        let k = crate::seqs::first_where(s.jobs, job_at(path.parts(), Tier::Full));
        if k < s.jobs.len() {
            Step {
                state: CoordView {
                    jobs: s.jobs.update(k, JobView { upgrade: true, ..s.jobs[k] }),
                    ..s
                },
                ..self
            }
        } else {
            Step {
                state: CoordView {
                    jobs: s.jobs.push(JobView { path, modified, tier: Tier::Full, upgrade: true }),
                    ..s
                },
                ..self
            }.with(background(path, Tier::Full, decode_dim(Tier::Full, vp, s.limit)))
        }
    }

    /// A cached image is taken out and shown.
    pub open spec fn hit_shown(
        self,
        path: Seq<PartView>,
        modified: i128,
        tier: Tier,
        dir: SlideDir,
    ) -> Step<T> {
        let s = self.state;
        let img = s.cache[crate::precache::hit_position(s.cache, path, modified, tier)].image;
        Step {
            state: CoordView {
                cache: crate::precache::after_take(s.cache, path, modified, tier),
                displayed: path,
                ..s
            },
            ..self
        }.with(CommandView::Show(img, dir))
    }

    /// The current image is asked for.
    pub open spec fn current_requested(self, current: Option<ItemView>, vp: int, dir: SlideDir) -> Step<
        T,
    > {
        let s = self.state;
        if s.pending {
            Step { state: CoordView { queued: seq![dir], ..s }, ..self }
        } else {
            match current {
                None => self,
                Some(it) => {
                    if crate::precache::has_hit(s.cache, it.path.parts(), it.modified, Tier::Full) {
                        self.hit_shown(it.path.parts(), it.modified, Tier::Full, dir)
                    } else if crate::precache::has_hit(s.cache, it.path.parts(), it.modified, Tier::Low) {
                        self.hit_shown(
                            it.path.parts(),
                            it.modified,
                            Tier::Low,
                            SlideDir::NoSlide,
                        ).upgrade_requested(it.path, it.modified, vp)
                    } else {
                        let id = (s.next_id + 1) as u64;
                        Step {
                            state: CoordView {
                                displayed: it.path.parts(),
                                upgrade: Some((it.path, it.modified)),
                                next_id: id,
                                pending: true,
                                ..s
                            },
                            ..self
                        }.with(
                            CommandView::Decode(
                                RequestView {
                                    path: it.path,
                                    tier: Tier::Low,
                                    width: decode_dim(Tier::Low, vp, s.limit),
                                    height: decode_dim(Tier::Low, vp, s.limit),
                                    direction: SlideDir::NoSlide,
                                    id,
                                },
                            ),
                        )
                    }
                },
            }
        }
    }

    /// The number of the decode that a request starts; zero where it starts none.
    pub open spec fn request_number(self, current: Option<ItemView>) -> u64 {
        let s = self.state;
        match current {
            Some(it) => {
                if s.pending || crate::precache::has_hit(
                    s.cache,
                    it.path.parts(),
                    it.modified,
                    Tier::Low,
                ) {
                    0
                } else {
                    (s.next_id + 1) as u64
                }
            },
            None => 0,
        }
    }

    /// One image is warmed, unless it is in the cache or its file is being decoded.
    pub open spec fn target_warmed(self, t: TargetView, vp: int) -> Step<T> {
        let s = self.state;
        if crate::precache::has_hit(s.cache, t.path.parts(), t.modified, t.tier) || crate::seqs::first_where(
            s.jobs,
            job_for(t.path.parts()),
        ) < s.jobs.len() {
            self
        } else {
            Step {
                state: CoordView {
                    jobs: s.jobs.push(
                        JobView {
                            path: t.path,
                            modified: t.modified,
                            tier: t.tier,
                            upgrade: false,
                        },
                    ),
                    ..s
                },
                ..self
            }.with(background(t.path, t.tier, decode_dim(t.tier, vp, s.limit)))
        }
    }

    /// The first `n` of a list of images are warmed in turn.
    pub open spec fn targets_warmed(self, targets: Seq<TargetView>, n: int, vp: int) -> Step<T>
        decreases n,
    {
        if n <= 0 {
            self
        } else {
            self.targets_warmed(targets, n - 1, vp).target_warmed(targets[n - 1], vp)
        }
    }

    /// A background decode has landed: its image goes to the cache, and to the
    /// screen where it replaces a low image of the file shown there.
    pub open spec fn job_landed(self, job: JobView, r: ResponseView<T>) -> Step<T> {
        if r.has_image() {
            let img = r.image->0;
            let s = self.state;
            let entry = CacheEntryView {
                path: job.path.parts(),
                modified: job.modified,
                image: img,
                tier: job.tier,
            };
            let cached = Step {
                state: CoordView {
                    cache: crate::precache::after_insert(s.cache, entry, CACHE_CAPACITY as int),
                    ..s
                },
                ..self
            };
            if job.upgrade && job.tier == Tier::Full && s.displayed == job.path.parts() {
                cached.with(CommandView::Show(img, SlideDir::NoSlide))
            } else {
                cached
            }
        } else {
            self
        }
    }

    /// The jobs from position `i` on are looked at, each with what was found of it.
    /// Those that ended leave, the last job taking their place.
    pub open spec fn drained(self, found: Seq<ProgressView<T>>, i: int) -> Step<T>
        decreases self.state.jobs.len() - i,
    {
        let s = self.state;
        if i < 0 || i >= s.jobs.len() {
            self
        } else {
            let rest = Step {
                state: CoordView { jobs: crate::seqs::swap_removed(s.jobs, i), ..s },
                ..self
            };
            match found[i] {
                ProgressView::Running => self.drained(found, i + 1),
                ProgressView::Closed => rest.drained(crate::seqs::swap_removed(found, i), i),
                ProgressView::Landed(r) => rest.job_landed(s.jobs[i], r).drained(
                    crate::seqs::swap_removed(found, i),
                    i,
                ),
            }
        }
    }

    /// The decode of the current image has landed: its image is shown, unless the
    /// answer is to an older request.
    pub open spec fn main_shown(self, r: ResponseView<T>) -> Step<T> {
        let s = CoordView { pending: false, ..self.state };
        if r.id == s.next_id && r.has_image() {
            Step { state: CoordView { displayed: r.path, ..s }, ..self }.with(
                CommandView::Show(r.image->0, r.direction),
            )
        } else {
            Step { state: s, ..self }
        }
    }

    /// The full decode that was to follow is asked for, if its file is on the screen.
    pub open spec fn upgrade_followed(self, vp: int) -> Step<T> {
        let s = CoordView { upgrade: None, ..self.state };
        let next = Step { state: s, ..self };
        match self.state.upgrade {
            Some((p, modified)) => {
                if s.displayed == p.parts() {
                    next.upgrade_requested(p, modified, vp)
                } else {
                    next
                }
            },
            None => next,
        }
    }

    /// The step that waited is taken.
    pub open spec fn queue_replayed(self, current: Option<ItemView>, vp: int) -> Step<T> {
        let s = self.state;
        if s.queued.len() == 0 {
            self
        } else {
            let rest = s.queued.drop_first();
            let dir = if rest.len() > 0 {
                SlideDir::NoSlide
            } else {
                s.queued[0]
            };
            Step { state: CoordView { queued: rest, ..s }, ..self }.current_requested(
                current,
                vp,
                dir,
            )
        }
    }

    /// A look at all running decodes.
    pub open spec fn polled(
        self,
        current: Option<ItemView>,
        vp: int,
        found: Seq<ProgressView<T>>,
        main: ProgressView<T>,
    ) -> Step<T> {
        let d = self.drained(found, 0);
        if !self.state.pending {
            d
        } else {
            match main {
                ProgressView::Running => d,
                ProgressView::Closed => Step {
                    state: CoordView { pending: false, ..d.state },
                    ..d
                },
                ProgressView::Landed(r) => d.main_shown(r).upgrade_followed(vp).queue_replayed(
                    current,
                    vp,
                ),
            }
        }
    }

    /// The decode of the current image is seen to have landed.
    pub open spec fn lands(self, main: ProgressView<T>) -> bool {
        self.state.pending && main is Landed
    }

    /// The number of the decode of the current image, where that is seen to have landed.
    pub open spec fn landed_number(self, main: ProgressView<T>) -> Option<u64> {
        match main {
            ProgressView::Landed(r) => if self.state.pending {
                Some(r.id)
            } else {
                None
            },
            _ => None,
        }
    }

    /// A look at all running decodes; when the current image has landed, its
    /// neighbours are warmed.
    pub open spec fn advanced(
        self,
        current: Option<ItemView>,
        vp: int,
        found: Seq<ProgressView<T>>,
        main: ProgressView<T>,
        targets: Seq<TargetView>,
    ) -> Step<T> {
        let p = self.polled(current, vp, found, main);
        if self.lands(main) {
            p.targets_warmed(targets, targets.len() as int, vp)
        } else {
            p
        }
    }

    /// The full decode that is to follow can be started, where one has to be.
    pub open spec fn can_follow(self, vp: int) -> bool {
        match self.state.upgrade {
            Some((p, modified)) => self.state.displayed == p.parts() ==> self.state.can_upgrade(
                p.parts(),
                vp,
            ),
            None => true,
        }
    }

    /// What a look at the running decodes sets off can be computed.
    pub open spec fn can_poll(
        self,
        current: Option<ItemView>,
        vp: int,
        found: Seq<ProgressView<T>>,
        main: ProgressView<T>,
    ) -> bool {
        match main {
            ProgressView::Landed(r) => {
                let m = self.drained(found, 0).main_shown(r);
                let u = m.upgrade_followed(vp);
                self.state.pending ==> m.can_follow(vp) && (u.state.queued.len() > 0
                    ==> u.state.can_request(current, vp))
            },
            _ => true,
        }
    }

    /// What a look at the running decodes sets off can be computed, and the sizes of
    /// the neighbours where those are warmed.
    pub open spec fn can_advance(
        self,
        current: Option<ItemView>,
        vp: int,
        found: Seq<ProgressView<T>>,
        main: ProgressView<T>,
        targets: Seq<TargetView>,
    ) -> bool {
        &&& self.can_poll(current, vp, found, main)
        &&& self.lands(main) ==> self.polled(current, vp, found, main).can_warm_all(
            targets,
            targets.len() as int,
            vp,
        )
    }

    /// The decode of one image to warm can be started, where one has to be.
    pub open spec fn can_warm(self, t: TargetView, vp: int) -> bool {
        ||| t.tier == Tier::Low
        ||| vp * 2 <= u32::MAX
        ||| self.target_warmed(t, vp) == self
    }

    /// The first `n` of a list of images can be warmed in turn.
    pub open spec fn can_warm_all(self, targets: Seq<TargetView>, n: int, vp: int) -> bool
        decreases n,
    {
        n <= 0 || (self.can_warm_all(targets, n - 1, vp) && self.targets_warmed(
            targets,
            n - 1,
            vp,
        ).can_warm(targets[n - 1], vp))
    }
}

/// No two jobs are for the same file at the same quality.
pub open spec fn one_per_quality(jobs: Seq<JobView>) -> bool {
    forall|i: int, j: int|
        0 <= i < j < jobs.len() ==> (#[trigger] jobs[i]).path.parts() != (
        #[trigger] jobs[j]).path.parts()
            || jobs[i].tier != jobs[j].tier
}

impl<T> CoordView<T> {
    /// No file is decoded twice at a time at the same quality, at most one step waits,
    /// and the cache is in order.
    pub open spec fn valid(self) -> bool {
        &&& self.limit >= 1
        &&& self.queued.len() <= 1
        &&& one_per_quality(self.jobs)
        &&& self.cache.len() <= CACHE_CAPACITY
        &&& crate::precache::one_per_file(self.cache)
    }

    /// A full decode of a file runs already, or its size can be computed.
    pub open spec fn can_upgrade(self, path: Seq<PartView>, vp: int) -> bool {
        ||| crate::seqs::first_where(self.jobs, job_at(path, Tier::Full)) < self.jobs.len()
        ||| vp * 2 <= u32::MAX
    }

    /// A request for the current image can be answered: a full decode that has to be
    /// started has a size, and a low one a number.
    pub open spec fn can_request(self, current: Option<ItemView>, vp: int) -> bool {
        match current {
            Some(it) => {
                ||| self.pending
                ||| crate::precache::has_hit(self.cache, it.path.parts(), it.modified, Tier::Full)
                ||| if crate::precache::has_hit(self.cache, it.path.parts(), it.modified, Tier::Low) {
                    self.can_upgrade(it.path.parts(), vp)
                } else {
                    self.next_id < u64::MAX
                }
            },
            None => true,
        }
    }
}

/// Decides what is decoded and shown.
pub struct DecodeCoordinator<T> {
    max_texture_dim: u32,
    next_id: u64,
    pending: bool,
    queued_steps: VecDeque<SlideDir>,
    prefetch: Vec<PrefetchJob>,
    precache: PredecodeCache<T>,
    displayed_path: FilePath,
    pending_upgrade: Option<(FilePath, i128)>,
}

impl<T> View for DecodeCoordinator<T> {
    type V = CoordView<T>;

    closed spec fn view(&self) -> CoordView<T> {
        CoordView {
            limit: self.max_texture_dim,
            next_id: self.next_id,
            pending: self.pending,
            queued: self.queued_steps@,
            jobs: crate::sort::views(self.prefetch@),
            cache: self.precache@,
            displayed: self.displayed_path@.parts(),
            upgrade: match self.pending_upgrade {
                Some((p, modified)) => Some((p@, modified)),
                None => None,
            },
        }
    }
}

/// The longer side of a viewport.
pub open spec fn longer_side(viewport: (u32, u32)) -> int {
    if viewport.0 > viewport.1 {
        viewport.0 as int
    } else {
        viewport.1 as int
    }
}

fn longer(viewport: (u32, u32)) -> (r: u32)
    ensures
        r == longer_side(viewport),
{
    if viewport.0 > viewport.1 {
        viewport.0
    } else {
        viewport.1
    }
}

impl<T> DecodeCoordinator<T> {
    /// The state is valid, and the cache has its capacity.
    pub closed spec fn wf(&self) -> bool {
        &&& self@.valid()
        &&& self.precache.wf()
        &&& self.precache.capacity() == CACHE_CAPACITY
    }

    /// Well-formedness implies that the state is valid.
    pub proof fn wf_is_valid(&self)
        requires
            self.wf(),
        ensures
            self@.valid(),
    {
    }

    /// The state with the commands given so far.
    pub open spec fn step(&self, out: Seq<Command<T>>) -> Step<T> {
        Step { state: self@, commands: crate::sort::views(out) }
    }

    /// Nothing is decoded or shown yet.
    pub fn new(max_texture_dim: u32) -> (r: Self)
        ensures
            r.wf(),
            r@ == (CoordView::<T> {
                limit: if max_texture_dim == 0 { 1 } else { max_texture_dim },
                next_id: 0,
                pending: false,
                queued: Seq::empty(),
                jobs: Seq::empty(),
                cache: Seq::empty(),
                displayed: Seq::empty(),
                upgrade: None,
            }),
    {
        let r = DecodeCoordinator {
            max_texture_dim: if max_texture_dim == 0 {
                1
            } else {
                max_texture_dim
            },
            next_id: 0,
            pending: false,
            queued_steps: VecDeque::new(),
            prefetch: Vec::new(),
            precache: PredecodeCache::new(CACHE_CAPACITY),
            displayed_path: FilePath::empty(),
            pending_upgrade: None,
        };
        assert(r@.jobs =~= Seq::empty());
        assert(r@.queued =~= Seq::empty());
        r
    }

    fn job_position(&self, path: &FilePath) -> (r: usize)
        ensures
            r == crate::seqs::first_where(self@.jobs, job_for(path@.parts())),
            r <= self.prefetch@.len(),
    {
        let ghost f = job_for(path@.parts());
        let mut i: usize = 0;
        while i < self.prefetch.len()
            invariant
                f == job_for(path@.parts()),
                i <= self.prefetch@.len(),
                forall|j: int| 0 <= j < i ==> !f(#[trigger] self@.jobs[j]),
            decreases self.prefetch@.len() - i,
        {
            assert(self@.jobs[i as int] == self.prefetch@[i as int]@);
            if self.prefetch[i].path.same(path) {
                proof {
                    crate::seqs::first_where_unique(self@.jobs, f, i as int);
                }
                return i;
            }
            i += 1;
        }
        proof {
            crate::seqs::first_where_unique(self@.jobs, f, i as int);
        }
        i
    }

    fn job_position_at(&self, path: &FilePath, tier: Tier) -> (r: usize)
        ensures
            r == crate::seqs::first_where(self@.jobs, job_at(path@.parts(), tier)),
            r <= self.prefetch@.len(),
    {
        let ghost f = job_at(path@.parts(), tier);
        let mut i: usize = 0;
        while i < self.prefetch.len()
            invariant
                f == job_at(path@.parts(), tier),
                i <= self.prefetch@.len(),
                forall|j: int| 0 <= j < i ==> !f(#[trigger] self@.jobs[j]),
            decreases self.prefetch@.len() - i,
        {
            assert(self@.jobs[i as int] == self.prefetch@[i as int]@);
            if self.prefetch[i].tier == tier && self.prefetch[i].path.same(path) {
                proof {
                    crate::seqs::first_where_unique(self@.jobs, f, i as int);
                }
                return i;
            }
            i += 1;
        }
        proof {
            crate::seqs::first_where_unique(self@.jobs, f, i as int);
        }
        i
    }

    fn start_job(
        &mut self,
        path: FilePath,
        modified: i128,
        tier: Tier,
        upgrade: bool,
        dim: u32,
        out: &mut Vec<Command<T>>,
    )
        requires
            old(self).wf(),
            crate::seqs::first_where(old(self)@.jobs, job_at(path@.parts(), tier))
                >= old(self)@.jobs.len(),
        ensures
            final(self).wf(),
            final(self).step(final(out)@) == (Step {
                state: CoordView {
                    jobs: old(self)@.jobs.push(JobView { path: path@, modified, tier, upgrade }),
                    ..old(self)@
                },
                ..old(self).step(old(out)@)
            }).with(background(path@, tier, dim)),
    {
        let ghost before = self@;
        let ghost out_before = out@;
        proof {
            crate::seqs::first_where_is(before.jobs, job_at(path@.parts(), tier));
        }
        let request = DecodeRequest {
            path: path.clone(),
            tier,
            width: dim,
            height: dim,
            direction: SlideDir::NoSlide,
            id: 0,
        };
        let ghost pv = path@;
        self.prefetch.push(PrefetchJob { path, modified, tier, upgrade });
        out.push(Command::Decode(request));
        let ghost job = JobView { path: pv, modified, tier, upgrade };
        assert(self@.jobs =~= before.jobs.push(job));
        assert(crate::sort::views(out@) =~= crate::sort::views(out_before).push(
            background::<T>(pv, tier, dim),
        ));
        assert forall|i: int, j: int| 0 <= i < j < self@.jobs.len() implies (
        #[trigger] self@.jobs[i]).path.parts() != (#[trigger] self@.jobs[j]).path.parts() || self@.jobs[i].tier
            != self@.jobs[j].tier by {
            assert(self@.jobs[i] == before.jobs[i]);
            if j == before.jobs.len() {
                assert(!job_at(pv.parts(), tier)(before.jobs[i]));
            } else {
                assert(self@.jobs[j] == before.jobs[j]);
            }
        }
        assert(self@ =~= (CoordView { jobs: before.jobs.push(job), ..before }));
    }

    fn request_full_upgrade(
        &mut self,
        path: FilePath,
        modified: i128,
        viewport: (u32, u32),
        out: &mut Vec<Command<T>>,
    )
        requires
            old(self).wf(),
            old(self)@.can_upgrade(path@.parts(), longer_side(viewport)),
        ensures
            final(self).wf(),
            final(self).step(final(out)@) == old(self).step(old(out)@).upgrade_requested(
                path@,
                modified,
                longer_side(viewport),
            ),
    {
        let ghost before = self@;
        let k: usize = self.job_position_at(&path, Tier::Full);
        if k < self.prefetch.len() {
            let ghost jobs = self.prefetch@;
            assert(before.jobs[k as int] == jobs[k as int]@);
            self.prefetch[k].upgrade = true;
            assert(self@.jobs =~= before.jobs.update(
                k as int,
                JobView { upgrade: true, ..before.jobs[k as int] },
            ));
            assert forall|i: int, j: int| 0 <= i < j < self@.jobs.len() implies (
            #[trigger] self@.jobs[i]).path.parts() != (#[trigger] self@.jobs[j]).path.parts()
                || self@.jobs[i].tier != self@.jobs[j].tier by {
                assert(self@.jobs[i].path == before.jobs[i].path && self@.jobs[i].tier
                    == before.jobs[i].tier);
                assert(self@.jobs[j].path == before.jobs[j].path && self@.jobs[j].tier
                    == before.jobs[j].tier);
            }
        } else {
            let dim: u32 = full_clamp(longer(viewport), self.max_texture_dim);
            self.start_job(path, modified, Tier::Full, true, dim, out);
        }
    }

    fn request_into(
        &mut self,
        nav: &NavigationService,
        viewport: (u32, u32),
        direction: SlideDir,
        out: &mut Vec<Command<T>>,
    ) -> (id: u64)
        requires
            old(self).wf(),
            nav.wf(),
            old(self)@.can_request(nav@.current(), longer_side(viewport)),
        ensures
            final(self).wf(),
            final(self).step(final(out)@) == old(self).step(old(out)@).current_requested(
                nav@.current(),
                longer_side(viewport),
                direction,
            ),
            id == old(self).step(old(out)@).request_number(nav@.current()),
    {
        let ghost before = self@;
        let ghost out_before = out@;
        let ghost start = self.step(out@);
        if self.pending {
            self.queued_steps.clear();
            self.queued_steps.push_back(direction);
            assert(self@.queued =~= seq![direction]);
            assert(self@ =~= (CoordView { queued: seq![direction], ..before }));
            return 0;
        }
        let (path, modified) = match nav.current() {
            Some(it) => (it.path.clone(), it.modified),
            None => {
                return 0;
            },
        };
        let ghost pv = path@;
        proof {
            low_is_implied(before.cache, pv.parts(), modified);
        }
        match self.precache.take(&path, modified, Tier::Full) {
            Some(img) => {
                self.displayed_path = path;
                let ghost image = img;
                out.push(Command::Show(img, direction));
                assert(crate::sort::views(out@) =~= crate::sort::views(out_before).push(
                    CommandView::Show(image, direction),
                ));
                assert(self.step(out@) =~= start.hit_shown(pv.parts(), modified, Tier::Full, direction));
                return 0;
            },
            None => {},
        }
        assert(self@ =~= before);
        match self.precache.take(&path, modified, Tier::Low) {
            Some(img) => {
                self.displayed_path = path.clone();
                let ghost image = img;
                out.push(Command::Show(img, SlideDir::NoSlide));
                assert(crate::sort::views(out@) =~= crate::sort::views(out_before).push(
                    CommandView::Show(image, SlideDir::NoSlide),
                ));
                assert(self.step(out@) =~= start.hit_shown(
                    pv.parts(),
                    modified,
                    Tier::Low,
                    SlideDir::NoSlide,
                ));
                self.request_full_upgrade(path, modified, viewport, out);
                return 0;
            },
            None => {},
        }
        assert(self@ =~= before);
        self.displayed_path = path.clone();
        self.pending_upgrade = Some((path.clone(), modified));
        self.next_id = self.next_id + 1;
        let id: u64 = self.next_id;
        self.pending = true;
        let dim: u32 = low_clamp(self.max_texture_dim);
        out.push(
            Command::Decode(
                DecodeRequest {
                    path,
                    tier: Tier::Low,
                    width: dim,
                    height: dim,
                    direction: SlideDir::NoSlide,
                    id,
                },
            ),
        );
        assert(crate::sort::views(out@) =~= crate::sort::views(out_before).push(
            CommandView::Decode(
                RequestView {
                    path: pv,
                    tier: Tier::Low,
                    width: dim,
                    height: dim,
                    direction: SlideDir::NoSlide,
                    id,
                },
            ),
        ));
        id
    }

    /// Asks for the current image. Returns the number of the decode that this
    /// starts, or zero, and what to do.
    pub fn request_current(
        &mut self,
        nav: &NavigationService,
        viewport: (u32, u32),
        direction: SlideDir,
    ) -> (r: (u64, Vec<Command<T>>))
        requires
            old(self).wf(),
            nav.wf(),
            old(self)@.can_request(nav@.current(), longer_side(viewport)),
        ensures
            final(self).wf(),
            final(self).step(r.1@) == old(self).step(Seq::empty()).current_requested(
                nav@.current(),
                longer_side(viewport),
                direction,
            ),
            r.0 == old(self).step(Seq::empty()).request_number(nav@.current()),
    {
        let mut out: Vec<Command<T>> = Vec::new();
        assert(out@ =~= Seq::empty());
        let id: u64 = self.request_into(nav, viewport, direction, &mut out);
        (id, out)
    }

    fn warm(
        &mut self,
        path: FilePath,
        modified: i128,
        tier: Tier,
        viewport: (u32, u32),
        out: &mut Vec<Command<T>>,
    )
        requires
            old(self).wf(),
            old(self).step(old(out)@).can_warm(
                TargetView { path: path@, modified, tier },
                longer_side(viewport),
            ),
        ensures
            final(self).wf(),
            final(self).step(final(out)@) == old(self).step(old(out)@).target_warmed(
                TargetView { path: path@, modified, tier },
                longer_side(viewport),
            ),
    {
        if self.precache.contains(&path, modified, tier) {
            return ;
        }
        if self.job_position(&path) < self.prefetch.len() {
            return ;
        }
        proof {
            let s = self.step(out@);
            let t = TargetView { path: path@, modified, tier };
            let warmed = s.target_warmed(t, longer_side(viewport));
            assert(warmed.state.jobs.len() == s.state.jobs.len() + 1);
            crate::seqs::first_where_is(self@.jobs, job_for(path@.parts()));
            crate::seqs::first_where_is(self@.jobs, job_at(path@.parts(), tier));
            let k = crate::seqs::first_where(self@.jobs, job_at(path@.parts(), tier));
            if k < self@.jobs.len() {
                assert(!job_for(path@.parts())(self@.jobs[k]));
            }
        }
        let dim: u32 = match tier {
            Tier::Full => full_clamp(longer(viewport), self.max_texture_dim),
            Tier::Low => low_clamp(self.max_texture_dim),
        };
        self.start_job(path, modified, tier, false, dim, out);
    }

    /// Starts decodes for the images around the current one that are neither cached
    /// nor being decoded. Nothing on the screen changes.
    pub fn predecode_adjacent(&mut self, nav: &NavigationService, viewport: (u32, u32)) -> (r: Vec<
        Command<T>,
    >)
        requires
            old(self).wf(),
            nav.wf(),
            old(self).step(Seq::empty()).can_warm_all(
                neighbours(nav@.items, nav@.index),
                neighbours(nav@.items, nav@.index).len() as int,
                longer_side(viewport),
            ),
        ensures
            final(self).wf(),
            final(self).step(r@) == old(self).step(Seq::empty()).targets_warmed(
                neighbours(nav@.items, nav@.index),
                neighbours(nav@.items, nav@.index).len() as int,
                longer_side(viewport),
            ),
    {
        let mut out: Vec<Command<T>> = Vec::new();
        assert(out@ =~= Seq::empty());
        self.warm_neighbours(nav, viewport, &mut out);
        out
    }

    fn warm_neighbours(
        &mut self,
        nav: &NavigationService,
        viewport: (u32, u32),
        out: &mut Vec<Command<T>>,
    )
        requires
            old(self).wf(),
            nav.wf(),
            old(self).step(old(out)@).can_warm_all(
                neighbours(nav@.items, nav@.index),
                neighbours(nav@.items, nav@.index).len() as int,
                longer_side(viewport),
            ),
        ensures
            final(self).wf(),
            final(self).step(final(out)@) == old(self).step(old(out)@).targets_warmed(
                neighbours(nav@.items, nav@.index),
                neighbours(nav@.items, nav@.index).len() as int,
                longer_side(viewport),
            ),
    {
        let ghost start = self.step(out@);
        proof {
            nav.wf_is_valid();
        }
        let items = nav.items();
        let index: usize = nav.current_index();
        let count: usize = items.len();
        if count == 0 {
            return ;
        }
        let ghost targets = neighbours(nav@.items, nav@.index);
        let ghost vp = longer_side(viewport);
        proof {
            reveal_with_fuel(Step::targets_warmed, 5);
            reveal_with_fuel(Step::can_warm_all, 5);
        }
        let b1: usize = place_before(index, count, 1);
        assert(nav@.items[b1 as int] == items@[b1 as int]@);
        self.warm(items[b1].path.clone(), items[b1].modified, Tier::Full, viewport, out);
        assert(self.step(out@) == start.targets_warmed(targets, 1, vp));
        let f1: usize = place_after(index, count, 1);
        assert(nav@.items[f1 as int] == items@[f1 as int]@);
        self.warm(items[f1].path.clone(), items[f1].modified, Tier::Full, viewport, out);
        assert(self.step(out@) == start.targets_warmed(targets, 2, vp));
        let b2: usize = place_before(index, count, 2);
        assert(nav@.items[b2 as int] == items@[b2 as int]@);
        self.warm(items[b2].path.clone(), items[b2].modified, Tier::Low, viewport, out);
        assert(self.step(out@) == start.targets_warmed(targets, 3, vp));
        let f2: usize = place_after(index, count, 2);
        assert(nav@.items[f2 as int] == items@[f2 as int]@);
        self.warm(items[f2].path.clone(), items[f2].modified, Tier::Low, viewport, out);
        assert(self.step(out@) == start.targets_warmed(targets, 4, vp));
    }

    fn drain_prefetch(&mut self, found: Vec<Progress<T>>, out: &mut Vec<Command<T>>)
        requires
            old(self).wf(),
            found.len() == old(self)@.jobs.len(),
        ensures
            final(self).wf(),
            final(self).step(final(out)@) == old(self).step(old(out)@).drained(
                crate::sort::views(found@),
                0,
            ),
            final(self)@.limit == old(self)@.limit,
            final(self)@.next_id == old(self)@.next_id,
            final(self)@.pending == old(self)@.pending,
    {
        let ghost goal = self.step(out@).drained(crate::sort::views(found@), 0);
        let mut found = found;
        let mut i: usize = 0;
        while i < self.prefetch.len()
            invariant
                self.wf(),
                found@.len() == self.prefetch@.len(),
                i <= self.prefetch@.len(),
                self.step(out@).drained(crate::sort::views(found@), i as int) == goal,
                self@.limit == old(self)@.limit,
                self@.next_id == old(self)@.next_id,
                self@.pending == old(self)@.pending,
            decreases self.prefetch@.len() - i,
        {
            let ghost before = self@;
            let ghost at = self.step(out@);
            let ghost seen = crate::sort::views(found@);
            let ghost jobs = self.prefetch@;
            assert(before.jobs[i as int] == jobs[i as int]@);
            assert(seen[i as int] == found@[i as int]@);
            let running: bool = matches!(found[i], Progress::Running);
            if running {
                i += 1;
                continue ;
            }
            let ghost found_before = found@;
            let progress = found.swap_remove(i);
            assert(crate::sort::views(found@) =~= crate::seqs::swap_removed(seen, i as int));
            let job = self.prefetch.swap_remove(i);
            assert(self@.jobs =~= crate::seqs::swap_removed(before.jobs, i as int));
            assert forall|a: int, b: int| 0 <= a < b < self@.jobs.len() implies (
            #[trigger] self@.jobs[a]).path.parts() != (#[trigger] self@.jobs[b]).path.parts()
                || self@.jobs[a].tier != self@.jobs[b].tier by {
                let x = if a == i {
                    before.jobs.len() - 1
                } else {
                    a
                };
                let y = if b == i {
                    before.jobs.len() - 1
                } else {
                    b
                };
                assert(self@.jobs[a] == before.jobs[x]);
                assert(self@.jobs[b] == before.jobs[y]);
            }
            let ghost jv = job@;
            let ghost rest = self.step(out@);
            assert(rest =~= (Step {
                state: CoordView {
                    jobs: crate::seqs::swap_removed(before.jobs, i as int),
                    ..before
                },
                ..at
            }));
            match progress {
                Progress::Landed(resp) => {
                    let ghost rv = ResponseView {
                        id: resp.id,
                        path: resp.path@.parts(),
                        success: resp.result.is_success,
                        direction: resp.direction,
                        image: resp.gpu_image,
                    };
                    if resp.result.is_success {
                        match resp.gpu_image {
                            Some(img) => {
                                let ghost out_before = out@;
                                let ghost image = img;
                                let show: bool = job.upgrade && job.tier == Tier::Full
                                    && self.displayed_path.same(&job.path);
                                let again: Arc<T> = img.clone();
                                self.precache.insert(job.path, job.modified, img, job.tier);
                                if show {
                                    out.push(Command::Show(again, SlideDir::NoSlide));
                                    assert(crate::sort::views(out@) =~= crate::sort::views(
                                        out_before,
                                    ).push(CommandView::Show(image, SlideDir::NoSlide)));
                                }
                                assert(self.step(out@) =~= rest.job_landed(jv, rv));
                            },
                            None => {},
                        }
                    }
                    assert(self.step(out@) =~= rest.job_landed(jv, rv));
                },
                _ => {},
            }
        }
    }

    /// Looks at all running decodes. `found` holds what was found of each background
    /// decode, in the order of [`Self::prefetch_jobs`]; `main` what was found of the
    /// decode of the current image. Returns the number of that decode where it has
    /// landed, and what to do.
    pub fn poll(
        &mut self,
        nav: &NavigationService,
        viewport: (u32, u32),
        found: Vec<Progress<T>>,
        main: Progress<T>,
    ) -> (r: (Option<u64>, Vec<Command<T>>))
        requires
            old(self).wf(),
            nav.wf(),
            found.len() == old(self)@.jobs.len(),
            old(self).step(Seq::empty()).can_poll(
                nav@.current(),
                longer_side(viewport),
                crate::sort::views(found@),
                main@,
            ),
        ensures
            final(self).wf(),
            final(self).step(r.1@) == old(self).step(Seq::empty()).polled(
                nav@.current(),
                longer_side(viewport),
                crate::sort::views(found@),
                main@,
            ),
            r.0 == old(self).step(Seq::empty()).landed_number(main@),
    {
        let mut out: Vec<Command<T>> = Vec::new();
        assert(out@ =~= Seq::empty());
        let ghost mv = main@;
        let ghost vp = longer_side(viewport);
        let ghost current = nav@.current();
        self.drain_prefetch(found, &mut out);
        let ghost d = self.step(out@);
        if !self.pending {
            return (None, out);
        }
        let resp = match main {
            Progress::Running => {
                return (None, out);
            },
            Progress::Closed => {
                self.pending = false;
                assert(self.step(out@) =~= (Step {
                    state: CoordView { pending: false, ..d.state },
                    ..d
                }));
                return (None, out);
            },
            Progress::Landed(r) => r,
        };
        let ghost rv = ResponseView {
            id: resp.id,
            path: resp.path@.parts(),
            success: resp.result.is_success,
            direction: resp.direction,
            image: resp.gpu_image,
        };
        self.pending = false;
        let id: u64 = resp.id;
        if resp.id == self.next_id && resp.result.is_success {
            match resp.gpu_image {
                Some(img) => {
                    let ghost out_before = out@;
                    let ghost image = img;
                    self.displayed_path = resp.path;
                    out.push(Command::Show(img, resp.direction));
                    assert(crate::sort::views(out@) =~= crate::sort::views(out_before).push(
                        CommandView::Show(image, resp.direction),
                    ));
                },
                None => {},
            }
        }
        let ghost m = self.step(out@);
        assert(m =~= d.main_shown(rv));
        self.follow_upgrade(viewport, &mut out);
        let ghost u = self.step(out@);
        assert(u == m.upgrade_followed(vp));
        self.replay_queue(nav, viewport, &mut out);
        assert(self.step(out@) == u.queue_replayed(current, vp));
        (Some(id), out)
    }

    fn follow_upgrade(&mut self, viewport: (u32, u32), out: &mut Vec<Command<T>>)
        requires
            old(self).wf(),
            old(self).step(old(out)@).can_follow(longer_side(viewport)),
        ensures
            final(self).wf(),
            final(self).step(final(out)@) == old(self).step(old(out)@).upgrade_followed(
                longer_side(viewport),
            ),
    {
        let ghost before = self@;
        let waiting = self.pending_upgrade.take();
        assert(self@ =~= (CoordView { upgrade: None, ..before }));
        match waiting {
            Some((p, modified)) => {
                if self.displayed_path.same(&p) {
                    self.request_full_upgrade(p, modified, viewport, out);
                }
            },
            None => {},
        }
    }

    fn replay_queue(
        &mut self,
        nav: &NavigationService,
        viewport: (u32, u32),
        out: &mut Vec<Command<T>>,
    )
        requires
            old(self).wf(),
            nav.wf(),
            old(self)@.queued.len() > 0 ==> old(self)@.can_request(
                nav@.current(),
                longer_side(viewport),
            ),
        ensures
            final(self).wf(),
            final(self).step(final(out)@) == old(self).step(old(out)@).queue_replayed(
                nav@.current(),
                longer_side(viewport),
            ),
    {
        let ghost before = self@;
        match self.queued_steps.pop_front() {
            Some(dir) => {
                let more: bool = self.queued_steps.len() > 0;
                assert(self@.queued =~= before.queued.drop_first());
                assert(self@ =~= (CoordView { queued: before.queued.drop_first(), ..before }));
                let display_dir: SlideDir = if more {
                    SlideDir::NoSlide
                } else {
                    dir
                };
                let id: u64 = self.request_into(nav, viewport, display_dir, out);
            },
            None => {
                assert(self@ =~= before);
            },
        }
    }

    /// Looks at all running decodes, as [`Self::poll`] does, and, once the current
    /// image has landed, starts decodes for the images around it.
    pub fn advance(
        &mut self,
        nav: &NavigationService,
        viewport: (u32, u32),
        found: Vec<Progress<T>>,
        main: Progress<T>,
    ) -> (r: (Option<u64>, Vec<Command<T>>))
        requires
            old(self).wf(),
            nav.wf(),
            found.len() == old(self)@.jobs.len(),
            old(self).step(Seq::empty()).can_advance(
                nav@.current(),
                longer_side(viewport),
                crate::sort::views(found@),
                main@,
                neighbours(nav@.items, nav@.index),
            ),
        ensures
            final(self).wf(),
            final(self).step(r.1@) == old(self).step(Seq::empty()).advanced(
                nav@.current(),
                longer_side(viewport),
                crate::sort::views(found@),
                main@,
                neighbours(nav@.items, nav@.index),
            ),
            r.0 == old(self).step(Seq::empty()).landed_number(main@),
    {
        let (landed, todo) = self.poll(nav, viewport, found, main);
        let mut out: Vec<Command<T>> = todo;
        if landed.is_some() {
            self.warm_neighbours(nav, viewport, &mut out);
        }
        (landed, out)
    }

    /// The decodes in the background, in order: the file, and the quality it is
    /// decoded at.
    pub fn prefetch_jobs(&self) -> (r: Vec<(FilePath, Tier)>)
        ensures
            r.len() == self@.jobs.len(),
            forall|i: int|
                0 <= i < r.len() ==> (#[trigger] r@[i]).0@ == self@.jobs[i].path && r@[i].1
                    == self@.jobs[i].tier,
    {
        let mut out: Vec<(FilePath, Tier)> = Vec::new();
        let mut i: usize = 0;
        while i < self.prefetch.len()
            invariant
                i <= self.prefetch@.len(),
                out.len() == i,
                forall|j: int|
                    0 <= j < i ==> (#[trigger] out@[j]).0@ == self@.jobs[j].path && out@[j].1
                        == self@.jobs[j].tier,
            decreases self.prefetch@.len() - i,
        {
            assert(self@.jobs[i as int] == self.prefetch@[i as int]@);
            out.push((self.prefetch[i].path.clone(), self.prefetch[i].tier));
            i += 1;
        }
        out
    }

    /// Empties the cache and forgets the background decodes.
    pub fn clear_caches(&mut self)
        requires
            old(self).wf(),
        ensures
            final(self).wf(),
            final(self)@ == (CoordView { cache: Seq::empty(), jobs: Seq::empty(), ..old(self)@ }),
    {
        let ghost before = self@;
        self.precache.clear();
        self.prefetch.clear();
        assert(self@ =~= (CoordView { cache: Seq::empty(), jobs: Seq::empty(), ..before }));
    }

    /// Whether a step waits to be taken.
    pub fn has_queued(&self) -> (r: bool)
        ensures
            r == (self@.queued.len() > 0),
    {
        self.queued_steps.len() > 0
    }

    /// Whether the current image is being decoded, or a step waits.
    pub fn is_busy(&self) -> (r: bool)
        ensures
            r == (self@.pending || self@.queued.len() > 0),
    {
        self.pending || self.has_queued()
    }

    /// The number of the last decode of a current image.
    pub fn current_id(&self) -> (r: u64)
        ensures
            r == self@.next_id,
    {
        self.next_id
    }
}

/// While a decode is running, only the last of several requests counts.
pub proof fn later_request_wins<T>(
    s: Step<T>,
    first: Option<ItemView>,
    second: Option<ItemView>,
    vp: int,
    a: SlideDir,
    b: SlideDir,
)
    requires
        s.state.pending,
    ensures
        s.current_requested(first, vp, a).current_requested(second, vp, b)
            == s.current_requested(second, vp, b),
        s.current_requested(second, vp, b).state.queued == seq![b],
        s.current_requested(second, vp, b).commands == s.commands,
{
}

/// Every decode among the commands is for an image that the device can hold.
pub open spec fn decodes_fit<T>(s: Step<T>) -> bool {
    forall|i: int|
        0 <= i < s.commands.len() ==> (match #[trigger] s.commands[i] {
            CommandView::Decode(r) => r.width <= s.state.limit && r.height <= s.state.limit,
            CommandView::Show(_, _) => true,
        })
}

/// What the decodes of a step have in common with those of a later one: the device
/// stays the same, and no decode is for an image that it cannot hold.
pub open spec fn fits_after<T>(s: Step<T>, t: Step<T>) -> bool {
    &&& t.state.limit == s.state.limit
    &&& decodes_fit(s) ==> decodes_fit(t)
}

proof fn with_fits<T>(s: Step<T>, c: CommandView<T>)
    requires
        c matches CommandView::Decode(r) ==> r.width <= s.state.limit && r.height <= s.state.limit,
    ensures
        fits_after(s, s.with(c)),
{
    let t = s.with(c);
    if decodes_fit(s) {
        assert forall|i: int| 0 <= i < t.commands.len() implies (match #[trigger] t.commands[i] {
            CommandView::Decode(r) => r.width <= t.state.limit && r.height <= t.state.limit,
            CommandView::Show(_, _) => true,
        }) by {
            if i < s.commands.len() {
                assert(t.commands[i] == s.commands[i]);
            }
        }
    }
}

proof fn upgrade_fits<T>(s: Step<T>, path: PathView, modified: i128, vp: int)
    ensures
        fits_after(s, s.upgrade_requested(path, modified, vp)),
{
    let k = crate::seqs::first_where(s.state.jobs, job_at(path.parts(), Tier::Full));
    if k >= s.state.jobs.len() {
        let mid = Step {
            state: CoordView {
                jobs: s.state.jobs.push(JobView { path, modified, tier: Tier::Full, upgrade: true }),
                ..s.state
            },
            ..s
        };
        with_fits(
            mid,
            background(path, Tier::Full, decode_dim(Tier::Full, vp, s.state.limit)),
        );
    }
}

proof fn request_fits<T>(s: Step<T>, current: Option<ItemView>, vp: int, dir: SlideDir)
    ensures
        fits_after(s, s.current_requested(current, vp, dir)),
{
    if !s.state.pending {
        if let Some(it) = current {
            let shown = s.hit_shown(it.path.parts(), it.modified, Tier::Low, SlideDir::NoSlide);
            upgrade_fits(shown, it.path, it.modified, vp);
        }
    }
}

proof fn drained_fits<T>(s: Step<T>, found: Seq<ProgressView<T>>, i: int)
    ensures
        fits_after(s, s.drained(found, i)),
    decreases s.state.jobs.len() - i,
{
    if 0 <= i < s.state.jobs.len() {
        let rest = Step {
            state: CoordView { jobs: crate::seqs::swap_removed(s.state.jobs, i), ..s.state },
            ..s
        };
        let left = crate::seqs::swap_removed(found, i);
        match found[i] {
            ProgressView::Running => drained_fits(s, found, i + 1),
            ProgressView::Closed => drained_fits(rest, left, i),
            ProgressView::Landed(r) => drained_fits(rest.job_landed(s.state.jobs[i], r), left, i),
        }
    }
}

proof fn warming_fits<T>(s: Step<T>, targets: Seq<TargetView>, n: int, vp: int)
    ensures
        fits_after(s, s.targets_warmed(targets, n, vp)),
    decreases n,
{
    if n > 0 {
        warming_fits(s, targets, n - 1, vp);
    }
}

/// No decode is ever started at a size that the device has no texture for: not by
/// a request, by warming, or by a look at the running decodes.
pub proof fn decodes_fit_the_device<T>(
    s: Step<T>,
    current: Option<ItemView>,
    vp: int,
    dir: SlideDir,
    found: Seq<ProgressView<T>>,
    main: ProgressView<T>,
    targets: Seq<TargetView>,
)
    requires
        decodes_fit(s),
    ensures
        decodes_fit(s.current_requested(current, vp, dir)),
        decodes_fit(s.targets_warmed(targets, targets.len() as int, vp)),
        decodes_fit(s.polled(current, vp, found, main)),
{
    request_fits(s, current, vp, dir);
    warming_fits(s, targets, targets.len() as int, vp);
    drained_fits(s, found, 0);
    let d = s.drained(found, 0);
    if let ProgressView::Landed(r) = main {
        let m = d.main_shown(r);
        assert(fits_after(d, m));
        let next = Step { state: CoordView { upgrade: None, ..m.state }, ..m };
        assert(fits_after(m, next));
        if let Some((p, modified)) = m.state.upgrade {
            upgrade_fits(next, p, modified, vp);
        }
        let u = m.upgrade_followed(vp);
        assert(fits_after(m, u));
        if u.state.queued.len() > 0 {
            let rest = Step {
                state: CoordView { queued: u.state.queued.drop_first(), ..u.state },
                ..u
            };
            request_fits(rest, current, vp, SlideDir::NoSlide);
            request_fits(rest, current, vp, u.state.queued[0]);
        }
    }
}

/// Warming shows nothing and leaves the cache alone: it only adds background
/// decodes, one for each job, and no more than it has images to warm.
pub proof fn warming_shows_nothing<T>(s: Step<T>, targets: Seq<TargetView>, n: int, vp: int)
    ensures
        ({
            let t = s.targets_warmed(targets, n, vp);
            &&& t.state == (CoordView { jobs: t.state.jobs, ..s.state })
            &&& t.commands.len() >= s.commands.len()
            &&& t.commands.take(s.commands.len() as int) == s.commands
            &&& forall|i: int|
                s.commands.len() <= i < t.commands.len() ==> (#[trigger] t.commands[i]) is Decode
            &&& t.commands.len() - s.commands.len() == t.state.jobs.len() - s.state.jobs.len()
            &&& t.commands.len() - s.commands.len() <= if n > 0 { n } else { 0 }
        }),
    decreases n,
{
    if n > 0 {
        warming_shows_nothing(s, targets, n - 1, vp);
        let m = s.targets_warmed(targets, n - 1, vp);
        let t = m.target_warmed(targets[n - 1], vp);
        assert forall|i: int| s.commands.len() <= i < t.commands.len() implies (
        #[trigger] t.commands[i]) is Decode by {
            if i < m.commands.len() {
                assert(t.commands[i] == m.commands[i]);
            }
        }
        assert(t.commands.take(s.commands.len() as int) =~= m.commands.take(
            s.commands.len() as int,
        ));
    } else {
        assert(s.commands.take(s.commands.len() as int) =~= s.commands);
    }
}

/// A low image that comes out of the cache is shown at once, and a full decode that
/// will replace it runs from then on.
pub proof fn low_hit_is_upgraded<T>(s: Step<T>, it: ItemView, vp: int, dir: SlideDir)
    requires
        !s.state.pending,
        !crate::precache::has_hit(s.state.cache, it.path.parts(), it.modified, Tier::Full),
        crate::precache::has_hit(s.state.cache, it.path.parts(), it.modified, Tier::Low),
    ensures
        ({
            let t = s.current_requested(Some(it), vp, dir);
            &&& t.state.displayed == it.path.parts()
            &&& t.commands.len() > s.commands.len()
            &&& t.commands[s.commands.len() as int] is Show
            &&& exists|k: int|
                0 <= k < t.state.jobs.len() && (#[trigger] t.state.jobs[k]).path.same(it.path)
                    && t.state.jobs[k].tier == Tier::Full && t.state.jobs[k].upgrade
        }),
{
    let h = s.hit_shown(it.path.parts(), it.modified, Tier::Low, SlideDir::NoSlide);
    let t = h.upgrade_requested(it.path, it.modified, vp);
    let k = crate::seqs::first_where(h.state.jobs, job_at(it.path.parts(), Tier::Full));
    crate::seqs::first_where_is(h.state.jobs, job_at(it.path.parts(), Tier::Full));
    if k < h.state.jobs.len() {
        assert(t.state.jobs[k].path.same(it.path) && t.state.jobs[k].upgrade);
    } else {
        let n = h.state.jobs.len() as int;
        assert(t.state.jobs[n].path.same(it.path) && t.state.jobs[n].upgrade);
    }
}

/// A full decode that is asked for is started, at the size for the viewport, even where
/// low decodes of the file are running.
pub proof fn low_jobs_hold_nothing_up<T>(s: Step<T>, path: PathView, modified: i128, vp: int)
    requires
        forall|k: int|
            0 <= k < s.state.jobs.len() && (#[trigger] s.state.jobs[k]).path.same(path)
                ==> s.state.jobs[k].tier == Tier::Low,
    ensures
        s.upgrade_requested(path, modified, vp).state.jobs == s.state.jobs.push(
            JobView { path, modified, tier: Tier::Full, upgrade: true },
        ),
        s.upgrade_requested(path, modified, vp).commands == s.commands.push(
            background(path, Tier::Full, crate::precache::full_dim(vp, s.state.limit as int) as u32),
        ),
{
    crate::seqs::first_where_is(s.state.jobs, job_at(path.parts(), Tier::Full));
}

/// A full image that lands for the file on the screen replaces the low one there.
pub proof fn full_image_sharpens<T>(s: Step<T>, job: JobView, r: ResponseView<T>)
    requires
        r.has_image(),
        job.upgrade,
        job.tier == Tier::Full,
        s.state.displayed == job.path.parts(),
    ensures
        s.job_landed(job, r).commands == s.commands.push(
            CommandView::Show(r.image->0, SlideDir::NoSlide),
        ),
{
}

proof fn drained_jobs<T>(s: Step<T>, found: Seq<ProgressView<T>>, i: int)
    requires
        0 <= i <= s.state.jobs.len(),
        found.len() == s.state.jobs.len(),
    ensures
        forall|k: int|
            0 <= k < s.state.jobs.len() && (k < i || found[k] is Running)
                ==> s.drained(found, i).state.jobs.contains(#[trigger] s.state.jobs[k]),
        forall|j: JobView|
            s.drained(found, i).state.jobs.contains(j) ==> exists|k: int|
                0 <= k < s.state.jobs.len() && (#[trigger] s.state.jobs[k]) == j && (k < i
                    || found[k] is Running),
    decreases s.state.jobs.len() - i,
{
    let jobs = s.state.jobs;
    let t = s.drained(found, i);
    if i >= jobs.len() {
        assert forall|j: JobView| t.state.jobs.contains(j) implies exists|k: int|
            0 <= k < jobs.len() && (#[trigger] jobs[k]) == j && (k < i || found[k] is Running) by {
            let k = choose|k: int| 0 <= k < jobs.len() && jobs[k] == j;
            assert(jobs[k] == j);
        }
    } else if found[i] is Running {
        drained_jobs(s, found, i + 1);
        assert forall|j: JobView| t.state.jobs.contains(j) implies exists|k: int|
            0 <= k < jobs.len() && (#[trigger] jobs[k]) == j && (k < i || found[k] is Running) by {
            let k = choose|k: int|
                0 <= k < jobs.len() && (#[trigger] jobs[k]) == j && (k < i + 1
                    || found[k] is Running);
            assert(jobs[k] == j);
        }
    } else {
        let rest = Step {
            state: CoordView { jobs: crate::seqs::swap_removed(jobs, i), ..s.state },
            ..s
        };
        let left = crate::seqs::swap_removed(found, i);
        let next = match found[i] {
            ProgressView::Landed(r) => rest.job_landed(jobs[i], r),
            _ => rest,
        };
        let kept = next.state.jobs;
        assert(kept == crate::seqs::swap_removed(jobs, i));
        drained_jobs(next, left, i);
        assert(t == next.drained(left, i));
        let last = jobs.len() - 1;
        assert forall|k: int|
            0 <= k < jobs.len() && (k < i || found[k] is Running) implies t.state.jobs.contains(
            #[trigger] jobs[k],
        ) by {
            let to = if k == last {
                i
            } else {
                k
            };
            assert(kept[to] == jobs[k]);
            assert(to < i || left[to] is Running);
        }
        assert forall|j: JobView| t.state.jobs.contains(j) implies exists|k: int|
            0 <= k < jobs.len() && (#[trigger] jobs[k]) == j && (k < i || found[k] is Running) by {
            let k = choose|k: int|
                0 <= k < kept.len() && (#[trigger] kept[k]) == j && (k < i || left[k] is Running);
            let from = if k == i {
                last
            } else {
                k
            };
            assert(jobs[from] == j);
        }
    }
}

/// A look at the background decodes keeps exactly those that are still running.
pub proof fn running_jobs_stay<T>(s: Step<T>, found: Seq<ProgressView<T>>)
    requires
        found.len() == s.state.jobs.len(),
    ensures
        forall|k: int|
            0 <= k < s.state.jobs.len() && found[k] is Running ==> s.drained(
                found,
                0,
            ).state.jobs.contains(#[trigger] s.state.jobs[k]),
        forall|j: JobView|
            s.drained(found, 0).state.jobs.contains(j) ==> exists|k: int|
                0 <= k < s.state.jobs.len() && (#[trigger] s.state.jobs[k]) == j
                    && found[k] is Running,
{
    drained_jobs(s, found, 0);
    assert forall|j: JobView| s.drained(found, 0).state.jobs.contains(j) implies exists|k: int|
        0 <= k < s.state.jobs.len() && (#[trigger] s.state.jobs[k]) == j && found[k] is Running by {
        let k = choose|k: int|
            0 <= k < s.state.jobs.len() && (#[trigger] s.state.jobs[k]) == j && (k < 0
                || found[k] is Running);
        assert(s.state.jobs[k] == j);
    }
}

proof fn drained_keeps<T>(s: Step<T>, found: Seq<ProgressView<T>>, i: int)
    ensures
        ({
            let t = s.drained(found, i);
            &&& t.state.queued == s.state.queued
            &&& t.state.pending == s.state.pending
            &&& t.state.next_id == s.state.next_id
        }),
    decreases s.state.jobs.len() - i,
{
    if 0 <= i < s.state.jobs.len() {
        let rest = Step {
            state: CoordView { jobs: crate::seqs::swap_removed(s.state.jobs, i), ..s.state },
            ..s
        };
        let left = crate::seqs::swap_removed(found, i);
        match found[i] {
            ProgressView::Running => drained_keeps(s, found, i + 1),
            ProgressView::Closed => drained_keeps(rest, left, i),
            ProgressView::Landed(r) => drained_keeps(rest.job_landed(s.state.jobs[i], r), left, i),
        }
    }
}

/// When the decode of the current image lands, no step is left waiting: the one
/// that waited has been taken.
pub proof fn landing_empties_the_queue<T>(
    s: Step<T>,
    current: Option<ItemView>,
    vp: int,
    found: Seq<ProgressView<T>>,
    main: ProgressView<T>,
)
    requires
        s.state.valid(),
        s.state.pending,
        main is Landed,
    ensures
        s.polled(current, vp, found, main).state.queued.len() == 0,
{
    drained_keeps(s, found, 0);
}

/// A full decode that follows a low one is for the file state that was asked for,
/// whichever image has become the current one in the meantime.
pub proof fn upgrade_keeps_its_stamp<T>(
    s: Step<T>,
    it: ItemView,
    vp: int,
    dir: SlideDir,
    r: ResponseView<T>,
    later_vp: int,
)
    requires
        !s.state.pending,
        !crate::precache::has_hit(s.state.cache, it.path.parts(), it.modified, Tier::Low),
        crate::seqs::first_where(s.state.jobs, job_at(it.path.parts(), Tier::Full)) >= s.state.jobs.len(),
        r.path == it.path.parts(),
    ensures
        s.current_requested(Some(it), vp, dir).main_shown(r).upgrade_followed(later_vp).state.jobs
            == s.state.jobs.push(
            JobView { path: it.path, modified: it.modified, tier: Tier::Full, upgrade: true },
        ),
{
    low_is_implied(s.state.cache, it.path.parts(), it.modified);
}

proof fn can_warm_within<T>(s: Step<T>, targets: Seq<TargetView>, n: int, vp: int)
    requires
        vp * 2 <= u32::MAX,
    ensures
        s.can_warm_all(targets, n, vp),
    decreases n,
{
    if n > 0 {
        can_warm_within(s, targets, n - 1, vp);
    }
}

/// Where the viewport is not too large to be doubled and a number is left, every
/// request can be answered, every look taken and everything warmed.
pub proof fn enough_for_anything<T>(
    s: Step<T>,
    current: Option<ItemView>,
    vp: int,
    found: Seq<ProgressView<T>>,
    main: ProgressView<T>,
    targets: Seq<TargetView>,
)
    requires
        vp * 2 <= u32::MAX,
        s.state.next_id < u64::MAX,
    ensures
        s.state.can_request(current, vp),
        s.can_poll(current, vp, found, main),
        s.can_warm_all(targets, targets.len() as int, vp),
        s.can_advance(current, vp, found, main, targets),
{
    drained_keeps(s, found, 0);
    can_warm_within(s, targets, targets.len() as int, vp);
    can_warm_within(s.polled(current, vp, found, main), targets, targets.len() as int, vp);
}

proof fn low_is_implied<T>(s: Seq<CacheEntryView<T>>, path: Seq<PartView>, modified: i128)
    ensures
        crate::precache::has_hit(s, path, modified, Tier::Full) ==> crate::precache::has_hit(
            s,
            path,
            modified,
            Tier::Low,
        ),
{
    let full = crate::precache::is_hit::<T>(path, modified, Tier::Full);
    let low = crate::precache::is_hit::<T>(path, modified, Tier::Low);
    crate::seqs::first_where_is(s, full);
    crate::seqs::first_where_is(s, low);
    let k = crate::seqs::first_where(s, full);
    if k < s.len() && crate::seqs::first_where(s, low) >= s.len() {
        assert(!low(s[k]));
    }
}

fn place_before(index: usize, count: usize, d: usize) -> (r: usize)
    requires
        index < count,
        d <= 2,
    ensures
        r < count,
        r == (index - d) % count as int,
{
    let m: usize = d % count;
    let r: usize = if index >= m {
        index - m
    } else {
        count - m + index
    };
    assert(r as int == (index - d) % count as int) by (nonlinear_arith)
        requires
            0 <= index < count,
            0 <= d <= 2,
            m == d as int % count as int,
            r == (if index >= m { index - m } else { count - m + index }),
    ;
    r
}

fn place_after(index: usize, count: usize, d: usize) -> (r: usize)
    requires
        index < count,
        d <= 2,
    ensures
        r < count,
        r == (index + d) % count as int,
{
    let m: usize = d % count;
    let r: usize = if index < count - m {
        index + m
    } else {
        index - (count - m)
    };
    assert(r as int == (index + d) % count as int) by (nonlinear_arith)
        requires
            0 <= index < count,
            0 <= d <= 2,
            m == d as int % count as int,
            r == (if index < count - m { index + m } else { index - (count - m) }),
    ;
    r
}

} // verus!
