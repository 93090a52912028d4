//! Which images the viewer holds: the current one, the one sliding out, and those
//! that a frame in flight may still show.

use vstd::prelude::*;
use std::collections::VecDeque;
use std::sync::Arc;

verus! {

/// The direction in which a new image slides in.
#[derive(Debug, Clone, Copy, PartialEq, Eq, Structural)]
pub enum SlideDir {
    /// The image is shown at once.
    NoSlide,
    Next,
    Previous,
}

/// How an animation runs.
#[derive(Debug, Clone, Copy, PartialEq, Eq, Structural)]
pub enum Easing {
    /// Fast start, slow end: for repeated zoom steps.
    EaseOut,
    /// Slow at both ends: for changes between fit and original size.
    EaseInOut,
}

/// How many frames an image is kept for after it was last shown.
pub const RETIRE_FRAME_BUDGET: u64 = 4;

/// The images of the viewer, with its viewport and rotation.
pub struct Direct2DViewer<T> {
    pub current_gpu: Option<Arc<T>>,
    pub previous_gpu: Option<Arc<T>>,
    pub slide_dir: SlideDir,
    pub viewport_w: u32,
    pub viewport_h: u32,
    retired: VecDeque<(Arc<T>, u64)>,
    render_epoch: u64,
    safe_release_epoch: u64,
    rotation: u8,
}

/// The mathematical counterpart of [`Direct2DViewer`].
#[verifier::reject_recursive_types(T)]
#[verifier::ext_equal]
pub struct ViewerView<T> {
    pub current: Option<Arc<T>>,
    pub previous: Option<Arc<T>>,
    pub slide_dir: SlideDir,
    pub viewport: (u32, u32),
    /// The images no longer shown, oldest first, each with the frame it left in.
    pub retired: Seq<(Arc<T>, u64)>,
    /// The frame that is drawn.
    pub epoch: u64,
    /// The last frame that is known to be finished.
    pub released: u64,
    /// Quarter turns clockwise.
    pub rotation: u8,
}

/// The images still needed after a frame is known to be finished.
pub open spec fn still_needed<T>(released: u64) -> spec_fn((Arc<T>, u64)) -> bool {
    |r: (Arc<T>, u64)| r.1 > released
}

impl<T> ViewerView<T> {
    /// The retired images with one more, where there is one.
    pub open spec fn retired_with(self, image: Option<Arc<T>>) -> Seq<(Arc<T>, u64)> {
        match image {
            Some(img) => self.retired.push((img, self.epoch)),
            None => self.retired,
        }
    }

    /// The state after a new image was shown. A sliding image keeps the old one
    /// beside it until the slide ends; without a slide the old one retires.
    pub open spec fn showing(self, image: Arc<T>, direction: SlideDir) -> ViewerView<T> {
        if direction != SlideDir::NoSlide {
            ViewerView {
                current: Some(image),
                previous: self.current,
                slide_dir: direction,
                retired: self.retired_with(self.previous),
                rotation: 0,
                ..self
            }
        } else {
            ViewerView {
                current: Some(image),
                slide_dir: direction,
                retired: self.retired_with(self.current),
                rotation: 0,
                ..self
            }
        }
    }

    /// The state after the end of a slide was looked for.
    pub open spec fn slide_ticked(self, sliding: bool) -> ViewerView<T> {
        if sliding {
            self
        } else {
            ViewerView { previous: None, retired: self.retired_with(self.previous), ..self }
        }
    }

    /// The state after a frame is known to be finished.
    pub open spec fn released_through(self, confirmed: u64) -> ViewerView<T> {
        let released = if confirmed > self.released { confirmed } else { self.released };
        ViewerView { released, retired: self.retired.filter(still_needed(released)), ..self }
    }

    /// The state after a frame was handed to the GPU: what left the screen more than
    /// the budgeted number of frames ago is let go.
    pub open spec fn submitted(self, epoch: u64) -> ViewerView<T> {
        let at = ViewerView { epoch, ..self };
        if epoch >= RETIRE_FRAME_BUDGET {
            at.released_through((epoch - RETIRE_FRAME_BUDGET) as u64)
        } else {
            at
        }
    }

    /// Every image that the viewer holds.
    pub open spec fn holds(self, image: Arc<T>) -> bool {
        ||| self.current == Some(image)
        ||| self.previous == Some(image)
        ||| exists|i: int| 0 <= i < self.retired.len() && (#[trigger] self.retired[i]).0 == image
    }
}

/// Showing an image and ending a slide let go of no image: whatever the viewer
/// held it still holds.
pub proof fn showing_keeps_images<T>(v: ViewerView<T>, image: Arc<T>, direction: SlideDir, held: Arc<T>)
    requires
        v.holds(held),
    ensures
        v.showing(image, direction).holds(held),
        v.showing(image, direction).holds(image),
        v.slide_ticked(true).holds(held),
        v.slide_ticked(false).holds(held),
{
    let s = v.showing(image, direction);
    let t = v.slide_ticked(false);
    if v.previous == Some(held) {
        assert(v.retired_with(v.previous)[v.retired.len() as int].0 == held);
        if direction != SlideDir::NoSlide {
            assert(s.retired[v.retired.len() as int].0 == held);
        }
        assert(t.retired[v.retired.len() as int].0 == held);
    }
    if v.current == Some(held) && direction == SlideDir::NoSlide {
        assert(s.retired[v.retired.len() as int].0 == held);
    }
    if exists|i: int| 0 <= i < v.retired.len() && (#[trigger] v.retired[i]).0 == held {
        let i = choose|i: int| 0 <= i < v.retired.len() && (#[trigger] v.retired[i]).0 == held;
        assert(s.retired[i].0 == held);
        assert(t.retired[i].0 == held);
    }
}

/// An image leaves the viewer only after the frame it left the screen in is known
/// to be finished, and then it leaves.
pub proof fn release_law<T>(v: ViewerView<T>, confirmed: u64, i: int)
    requires
        0 <= i < v.retired.len(),
    ensures
        v.retired[i].1 > v.released_through(confirmed).released
            ==> v.released_through(confirmed).retired.contains(v.retired[i]),
        v.retired[i].1 <= confirmed ==> !v.released_through(confirmed).retired.contains(
            v.retired[i],
        ),
        v.released_through(confirmed).current == v.current,
        v.released_through(confirmed).previous == v.previous,
{
    let released = v.released_through(confirmed).released;
    crate::seqs::filter_keeps_members(v.retired, still_needed::<T>(released));
    assert(v.retired.contains(v.retired[i]));
}

/// An image that left the screen within the budgeted number of frames is not let
/// go when a frame is submitted, whatever frames were submitted before it.
pub proof fn submission_keeps_recent<T>(v: ViewerView<T>, epoch: u64, i: int)
    requires
        0 <= i < v.retired.len(),
        epoch >= v.epoch,
        v.released + RETIRE_FRAME_BUDGET <= v.epoch || v.released == 0,
        v.retired[i].1 + RETIRE_FRAME_BUDGET > epoch,
    ensures
        v.submitted(epoch).retired.contains(v.retired[i]),
{
    if epoch >= RETIRE_FRAME_BUDGET {
        let at = ViewerView { epoch, ..v };
        release_law(at, (epoch - RETIRE_FRAME_BUDGET) as u64, i);
    } else {
        assert(v.submitted(epoch).retired[i] == v.retired[i]);
    }
}

/// The image shown last is the current one, upright. With a slide, the one before it is
/// beside it, and one that was still sliding out retires; without, the one before retires
/// in the frame that is drawn. The frames and the viewport stay.
pub proof fn shown_image_is_current<T>(v: ViewerView<T>, image: Arc<T>, direction: SlideDir)
    ensures
        ({
            let s = v.showing(image, direction);
            &&& s.current == Some(image)
            &&& s.rotation == 0
            &&& s.slide_dir == direction
            &&& s.viewport == v.viewport && s.epoch == v.epoch && s.released == v.released
            &&& v.retired.is_prefix_of(s.retired)
            &&& s.retired.len() <= v.retired.len() + 1
            &&& direction == SlideDir::NoSlide ==> {
                &&& s.previous == v.previous
                &&& v.current matches Some(c) ==> s.retired.len() == v.retired.len() + 1
                    && s.retired.last() == (c, v.epoch)
                &&& v.current is None ==> s.retired == v.retired
            }
            &&& direction != SlideDir::NoSlide ==> {
                &&& s.previous == v.current
                &&& v.previous matches Some(c) ==> s.retired.len() == v.retired.len() + 1
                    && s.retired.last() == (c, v.epoch)
                &&& v.previous is None ==> s.retired == v.retired
            }
        }),
{
    let s = v.showing(image, direction);
    assert(s.retired.subrange(0, v.retired.len() as int) =~= v.retired);
}

/// The image that slides out stays beside the current one until the slide is over, and
/// then retires in the frame that is drawn; the current one stays.
pub proof fn slides_end<T>(v: ViewerView<T>)
    ensures
        v.slide_ticked(true) == v,
        ({
            let s = v.slide_ticked(false);
            &&& s.previous is None
            &&& s.current == v.current && s.rotation == v.rotation && s.epoch == v.epoch
            &&& v.previous matches Some(c) ==> s.retired == v.retired.push((c, v.epoch))
            &&& v.previous is None ==> s == v
        }),
{
}

/// What is finished stays so: the last finished frame never goes back. An image that left
/// the screen four frames ago or earlier is let go with a frame, and what is on the screen
/// never is.
pub proof fn frames_let_go<T>(v: ViewerView<T>, epoch: u64, confirmed: u64, i: int)
    ensures
        v.released_through(confirmed).released >= v.released,
        v.released_through(confirmed).released >= confirmed,
        v.released_through(confirmed).released == v.released || v.released_through(
            confirmed,
        ).released == confirmed,
        v.submitted(epoch).epoch == epoch,
        v.submitted(epoch).current == v.current,
        v.submitted(epoch).previous == v.previous,
        0 <= i < v.retired.len() && v.retired[i].1 + 4 <= epoch ==> !v.submitted(
            epoch,
        ).retired.contains(v.retired[i]),
        epoch < 4 ==> v.submitted(epoch).retired == v.retired,
{
    if 0 <= i < v.retired.len() && v.retired[i].1 + 4 <= epoch {
        let at = ViewerView { epoch, ..v };
        release_law(at, (epoch - RETIRE_FRAME_BUDGET) as u64, i);
    }
}

/// Quarter turns, counted round.
pub open spec fn turned(q: u8) -> u8 {
    (q as int % 4) as u8
}

/// A size as it stands on the screen after some quarter turns.
pub open spec fn on_screen(rotation: u8, width: u32, height: u32) -> (u32, u32) {
    if rotation as int % 2 == 1 {
        (height, width)
    } else {
        (width, height)
    }
}

/// Four quarter turns are none. One and three exchange width and height; none and two do
/// not.
pub proof fn turns_go_round(q: u8, w: u32, h: u32)
    ensures
        turned(q) < 4,
        q < 4 ==> turned(q) == q,
        q >= 4 ==> turned(q) == turned((q - 4) as u8),
        on_screen(0, w, h) == (w, h),
        on_screen(1, w, h) == (h, w),
        on_screen(2, w, h) == (w, h),
        on_screen(3, w, h) == (h, w),
        on_screen(turned(q), w, h) == on_screen(q, w, h),
        q < 255 ==> on_screen((q + 1) as u8, w, h) == on_screen(q, h, w),
{
}

impl<T> View for Direct2DViewer<T> {
    type V = ViewerView<T>;

    closed spec fn view(&self) -> ViewerView<T> {
        ViewerView {
            current: self.current_gpu,
            previous: self.previous_gpu,
            slide_dir: self.slide_dir,
            viewport: (self.viewport_w, self.viewport_h),
            retired: self.retired@,
            epoch: self.render_epoch,
            released: self.safe_release_epoch,
            rotation: self.rotation,
        }
    }
}

impl<T> Direct2DViewer<T> {
    /// A viewer without an image.
    pub fn new(viewport_w: u32, viewport_h: u32) -> (r: Self)
        ensures
            r@ == (ViewerView::<T> {
                current: None,
                previous: None,
                slide_dir: SlideDir::NoSlide,
                viewport: (viewport_w, viewport_h),
                retired: Seq::empty(),
                epoch: 0,
                released: 0,
                rotation: 0,
            }),
    {
        Direct2DViewer {
            current_gpu: None,
            previous_gpu: None,
            slide_dir: SlideDir::NoSlide,
            viewport_w,
            viewport_h,
            retired: VecDeque::new(),
            render_epoch: 0,
            safe_release_epoch: 0,
            rotation: 0,
        }
    }

    /// Shows an image. With a direction, the image shown so far slides out; one
    /// that was still sliding out retires.
    pub fn set_image_gpu(&mut self, image: Arc<T>, direction: SlideDir)
        ensures
            final(self)@ == old(self)@.showing(image, direction),
    {
        let ghost start = self@;
        self.rotation = 0;
        self.slide_dir = direction;
        let outgoing = self.current_gpu.take();
        self.current_gpu = Some(image);
        if direction != SlideDir::NoSlide {
            match self.previous_gpu.take() {
                Some(old_prev) => {
                    self.retired.push_back((old_prev, self.render_epoch));
                },
                None => {},
            }
            self.previous_gpu = outgoing;
        } else {
            match outgoing {
                Some(img) => {
                    self.retired.push_back((img, self.render_epoch));
                },
                None => {},
            }
        }
        assert(self@ =~= start.showing(image, direction));
    }

    /// Retires the outgoing image once its slide is over.
    pub fn tick_slide(&mut self, sliding: bool)
        ensures
            final(self)@ == old(self)@.slide_ticked(sliding),
    {
        let ghost start = self@;
        if !sliding {
            match self.previous_gpu.take() {
                Some(prev) => {
                    self.retired.push_back((prev, self.render_epoch));
                },
                None => {},
            }
        }
        assert(self@ =~= start.slide_ticked(sliding));
    }

    /// Sets the number of the frame that is drawn.
    pub fn set_render_epoch(&mut self, epoch: u64)
        ensures
            final(self)@ == (ViewerView { epoch, ..old(self)@ }),
    {
        self.render_epoch = epoch;
    }

    /// Lets go of the retired images that no frame after `confirmed_epoch` can show.
    pub fn release_retired_through(&mut self, confirmed_epoch: u64)
        ensures
            final(self)@ == old(self)@.released_through(confirmed_epoch),
    {
        let ghost start = self@;
        if confirmed_epoch > self.safe_release_epoch {
            self.safe_release_epoch = confirmed_epoch;
        }
        let ghost released = self.safe_release_epoch;
        let ghost f = still_needed::<T>(released);
        let ghost all = self.retired@;
        let ghost n = all.len() as int;
        let ghost mut k: int = 0;
        let mut i: usize = 0;
        assert(all.take(0).filter(f) =~= Seq::empty()) by {
            reveal(Seq::filter);
        }
        assert(self.retired@ =~= all.take(0).filter(f) + all.skip(0));
        while i < self.retired.len()
            invariant
                f == still_needed::<T>(released),
                released == self.safe_release_epoch,
                n == all.len(),
                0 <= k <= n,
                i == all.take(k).filter(f).len(),
                self.retired@ == all.take(k).filter(f) + all.skip(k),
                self@ == (ViewerView { released, retired: self.retired@, ..start }),
            decreases n - k,
        {
            let ghost done = all.take(k).filter(f);
            assert(k < n);
            assert(self.retired@[i as int] == all[k]);
            assert(all.take(k + 1).drop_last() =~= all.take(k));
            assert(all.take(k + 1).last() == all[k]);
            let ghost before = self.retired@;
            reveal(Seq::filter);
            if self.retired[i].1 <= self.safe_release_epoch {
                let dropped = self.retired.remove(i);
                assert(self.retired@ =~= before.remove(i as int));
                assert(before.remove(i as int) =~= done + all.skip(k + 1));
                assert(all.take(k + 1).filter(f) == done);
            } else {
                assert(all.take(k + 1).filter(f) == done.push(all[k]));
                assert(before =~= done.push(all[k]) + all.skip(k + 1));
                i += 1;
            }
            proof {
                k = k + 1;
            }
        }
        assert(k == n) by {
            if k < n {
                assert(self.retired@.len() > i);
            }
        }
        assert(all.take(n) =~= all);
        assert(self.retired@ =~= all.filter(f));
        assert(self@ =~= start.released_through(confirmed_epoch));
    }

    /// Notes that a frame was handed to the GPU, and lets go of what left the screen
    /// long enough ago.
    pub fn frame_submitted(&mut self, epoch: u64)
        ensures
            final(self)@ == old(self)@.submitted(epoch),
    {
        self.set_render_epoch(epoch);
        if epoch >= RETIRE_FRAME_BUDGET {
            self.release_retired_through(epoch - RETIRE_FRAME_BUDGET);
        }
    }

    /// Sets the viewport and returns whether it changed.
    pub fn set_viewport(&mut self, w: u32, h: u32) -> (changed: bool)
        ensures
            final(self)@ == (ViewerView { viewport: (w, h), ..old(self)@ }),
            changed == (old(self)@.viewport != (w, h)),
    {
        let changed: bool = self.viewport_w != w || self.viewport_h != h;
        self.viewport_w = w;
        self.viewport_h = h;
        changed
    }

    /// The viewport in physical pixels.
    pub fn viewport_size(&self) -> (r: (u32, u32))
        ensures
            r == self@.viewport,
    {
        (self.viewport_w, self.viewport_h)
    }

    /// Quarter turns clockwise.
    pub fn rotation(&self) -> (r: u8)
        ensures
            r == self@.rotation,
    {
        self.rotation
    }

    /// Turns the image upright; returns whether it was turned.
    pub fn reset_rotation(&mut self) -> (changed: bool)
        ensures
            final(self)@ == (ViewerView { rotation: 0, ..old(self)@ }),
            changed == (old(self)@.rotation != 0),
    {
        let changed: bool = self.rotation != 0;
        self.rotation = 0;
        changed
    }

    /// Sets the rotation in quarter turns, counted round from three to none;
    /// returns whether it changed.
    pub fn set_rotation(&mut self, q: u8) -> (changed: bool)
        ensures
            final(self)@ == (ViewerView { rotation: turned(q), ..old(self)@ }),
            changed == (old(self)@.rotation != turned(q)),
    {
        let prev: u8 = self.rotation;
        self.rotation = q % 4;
        prev != self.rotation
    }

    /// Width and height as they stand on the screen: exchanged after an odd number
    /// of quarter turns.
    pub fn effective_size(&self, width: u32, height: u32) -> (r: (u32, u32))
        ensures
            r == on_screen(self@.rotation, width, height),
    {
        if self.rotation % 2 == 1 {
            (height, width)
        } else {
            (width, height)
        }
    }
}

} // verus!
