//! The child window that shows the image: when it moves, and when its buffers are
//! resized.

use vstd::prelude::*;

verus! {

/// A change of size beyond this many pixels, both sides together, is carried out
/// at once.
pub const BIG_JUMP_PIXELS: u64 = 100;

/// How long a small change of size waits before the buffers follow, in milliseconds.
pub const SETTLE_MILLIS: u64 = 150;

/// What a request for a new position and size asks of the program.
#[derive(Debug, Clone, Copy, PartialEq, Eq, Structural)]
pub enum ResizeAction {
    /// Nothing: the window is there already.
    Keep,
    /// Tell the viewer its new viewport, resize the buffers and move the window.
    Immediate,
    /// Tell the viewer its new viewport; the buffers follow later.
    Deferred,
}

/// The rectangle and the timers of the child window.
#[derive(Debug)]
pub struct ViewerChildWindow {
    pub last_size: (u32, u32),
    pub last_applied_rect: (i32, i32, u32, u32),
    pending_resize_since: Option<u64>,
}

/// The mathematical counterpart of [`ViewerChildWindow`].
pub struct ChildView {
    /// The size asked for last.
    pub size: (u32, u32),
    /// The rectangle that the window has.
    pub applied: (i32, i32, u32, u32),
    /// Since when the buffers have a size to catch up with.
    pub waiting_since: Option<u64>,
}

/// The distance of two numbers.
pub open spec fn distance(a: u32, b: u32) -> int {
    if a > b {
        a - b
    } else {
        b - a
    }
}

impl ChildView {
    /// The new size differs much from the last one.
    pub open spec fn is_jump(self, w: u32, h: u32) -> bool {
        distance(w, self.size.0) + distance(h, self.size.1) > BIG_JUMP_PIXELS
    }

    /// What a request asks of the program.
    pub open spec fn resize_action(self, rect: (i32, i32, u32, u32)) -> ResizeAction {
        if self.applied == rect {
            ResizeAction::Keep
        } else if self.is_jump(rect.2, rect.3) {
            ResizeAction::Immediate
        } else {
            ResizeAction::Deferred
        }
    }

    /// The state after a request.
    pub open spec fn resized(self, rect: (i32, i32, u32, u32), now: u64) -> ChildView {
        match self.resize_action(rect) {
            ResizeAction::Keep => self,
            ResizeAction::Immediate => ChildView {
                size: (rect.2, rect.3),
                applied: rect,
                waiting_since: None,
            },
            ResizeAction::Deferred => ChildView {
                size: (rect.2, rect.3),
                applied: self.applied,
                waiting_since: Some(now),
            },
        }
    }

    /// The state after the window was moved.
    pub open spec fn positioned(self, rect: (i32, i32, u32, u32)) -> ChildView {
        ChildView { applied: rect, ..self }
    }

    /// The buffers are to be resized now.
    pub open spec fn flush_due(self, now: u64, transitioning: bool) -> bool {
        match self.waiting_since {
            Some(since) => transitioning || now - since >= SETTLE_MILLIS,
            None => false,
        }
    }

    /// A point of the main window in the coordinates of the child.
    pub open spec fn local(self, x: i32, y: i32) -> Option<(u32, u32)> {
        let a = self.applied;
        if a.0 <= x < a.0 + a.2 && a.1 <= y < a.1 + a.3 {
            Some(((x - a.0) as u32, (y - a.1) as u32))
        } else {
            None
        }
    }

    /// The size to resize the buffers to, where that is due.
    pub open spec fn flush_size(self, now: u64, transitioning: bool) -> Option<(u32, u32)> {
        if self.flush_due(now, transitioning) {
            Some(self.size)
        } else {
            None
        }
    }

    /// The state after the buffers were looked at.
    pub open spec fn flushed(self, now: u64, transitioning: bool) -> ChildView {
        if self.flush_due(now, transitioning) {
            ChildView { waiting_since: None, ..self }
        } else {
            self
        }
    }
}

/// After a request and the move that follows it, the window has the rectangle that
/// was asked for, however small the change.
pub proof fn window_tracks_requests(c: ChildView, rect: (i32, i32, u32, u32), now: u64)
    ensures
        c.resized(rect, now).positioned(rect).applied == rect,
        c.applied != rect ==> c.resized(rect, now).size == (rect.2, rect.3),
{
}

/// A size that was asked for reaches the buffers: at once after a jump, otherwise
/// once it has been left alone long enough.
pub proof fn size_reaches_the_buffers(
    c: ChildView,
    rect: (i32, i32, u32, u32),
    now: u64,
    later: u64,
)
    requires
        c.applied != rect,
        later >= now + SETTLE_MILLIS,
    ensures
        c.resize_action(rect) == ResizeAction::Immediate || c.resized(rect, now).flush_due(
            later,
            false,
        ),
        c.resized(rect, now).flushed(later, false).waiting_since is None,
{
}

impl View for ViewerChildWindow {
    type V = ChildView;

    closed spec fn view(&self) -> ChildView {
        ChildView {
            size: self.last_size,
            applied: self.last_applied_rect,
            waiting_since: self.pending_resize_since,
        }
    }
}

fn gap(a: u32, b: u32) -> (r: u64)
    ensures
        r == distance(a, b),
{
    if a > b {
        (a - b) as u64
    } else {
        (b - a) as u64
    }
}

impl ViewerChildWindow {
    /// A window at a rectangle.
    pub fn new(x: i32, y: i32, width: u32, height: u32) -> (r: Self)
        ensures
            r@ == (ChildView {
                size: (width, height),
                applied: (x, y, width, height),
                waiting_since: None,
            }),
    {
        ViewerChildWindow {
            last_size: (width, height),
            last_applied_rect: (x, y, width, height),
            pending_resize_since: None,
        }
    }

    /// Asks for a rectangle, at a time in milliseconds.
    pub fn resize(&mut self, x: i32, y: i32, width: u32, height: u32, now: u64) -> (r: ResizeAction)
        ensures
            r == old(self)@.resize_action((x, y, width, height)),
            final(self)@ == old(self)@.resized((x, y, width, height), now),
    {
        let (ax, ay, aw, ah) = self.last_applied_rect;
        if ax == x && ay == y && aw == width && ah == height {
            return ResizeAction::Keep;
        }
        let (old_w, old_h) = self.last_size;
        let delta: u64 = gap(width, old_w) + gap(height, old_h);
        self.last_size = (width, height);
        if delta > BIG_JUMP_PIXELS {
            self.pending_resize_since = None;
            self.last_applied_rect = (x, y, width, height);
            ResizeAction::Immediate
        } else {
            self.pending_resize_since = Some(now);
            ResizeAction::Deferred
        }
    }

    /// Gives the size to resize the buffers to, where that is due. It is due once the
    /// size was left alone for a while, or as soon as an animation runs.
    pub fn flush_pending_resize(&mut self, now: u64, transitioning: bool) -> (r: Option<(u32, u32)>)
        ensures
            r == old(self)@.flush_size(now, transitioning),
            final(self)@ == old(self)@.flushed(now, transitioning),
    {
        match self.pending_resize_since {
            None => None,
            Some(since) => {
                if !transitioning && (now < since || now - since < SETTLE_MILLIS) {
                    return None;
                }
                self.pending_resize_since = None;
                Some(self.last_size)
            },
        }
    }

    /// Moves the window to a rectangle; returns whether there is anything to do.
    pub fn apply_position(&mut self, x: i32, y: i32, width: u32, height: u32) -> (moved: bool)
        ensures
            moved == (old(self)@.applied != (x, y, width, height)),
            final(self)@ == old(self)@.positioned((x, y, width, height)),
    {
        let (ax, ay, aw, ah) = self.last_applied_rect;
        if ax == x && ay == y && aw == width && ah == height {
            return false;
        }
        self.last_applied_rect = (x, y, width, height);
        true
    }

    /// The size asked for last.
    pub fn size(&self) -> (r: (u32, u32))
        ensures
            r == self@.size,
    {
        self.last_size
    }

    /// A point of the main window in the coordinates of the child; none where it is
    /// outside.
    pub fn cursor_to_local(&self, x: i32, y: i32) -> (r: Option<(u32, u32)>)
        ensures
            r == self@.local(x, y),
    {
        let (lx, ly, lw, lh) = self.last_applied_rect;
        let dx: i64 = x as i64 - lx as i64;
        let dy: i64 = y as i64 - ly as i64;
        if dx >= 0 && dx < lw as i64 && dy >= 0 && dy < lh as i64 {
            Some((dx as u32, dy as u32))
        } else {
            None
        }
    }
}

/// A change of more than a hundred pixels, both sides together, is carried out at once,
/// one of up to a hundred later, and a request for the present rectangle is none.
pub proof fn sizes_that_jump(c: ChildView, rect: (i32, i32, u32, u32), now: u64)
    ensures
        ({
            let dw = rect.2 - c.size.0;
            let dh = rect.3 - c.size.1;
            let change = (if dw < 0 {
                -dw
            } else {
                dw
            }) + (if dh < 0 {
                -dh
            } else {
                dh
            });
            &&& c.applied == rect <==> c.resize_action(rect) == ResizeAction::Keep
            &&& c.applied != rect ==> (change > 100 <==> c.resize_action(rect)
                == ResizeAction::Immediate)
        }),
        c.applied == rect ==> c.resized(rect, now) == c,
        c.resize_action(rect) == ResizeAction::Immediate ==> c.resized(rect, now).applied == rect
            && c.resized(rect, now).waiting_since is None,
        c.resize_action(rect) == ResizeAction::Deferred ==> c.resized(rect, now).applied
            == c.applied && c.resized(rect, now).waiting_since == Some(now),
{
}

/// The buffers wait for a hundred and fifty milliseconds after the last request, or until
/// an animation runs, and then are resized once. Nothing is due without a request.
pub proof fn buffers_follow(
    c: ChildView,
    rect: (i32, i32, u32, u32),
    asked: u64,
    now: u64,
    transitioning: bool,
)
    requires
        asked <= now,
    ensures
        ({
            let s = c.resized(rect, asked);
            c.resize_action(rect) == ResizeAction::Deferred ==> {
                &&& s.flush_due(now, transitioning) <==> transitioning || now >= asked + 150
                &&& s.flush_due(now, transitioning) ==> !s.flushed(now, transitioning).flush_due(
                    now,
                    transitioning,
                )
                &&& !s.flush_due(now, transitioning) ==> s.flushed(now, transitioning) == s
            }
        }),
        c.waiting_since is None ==> !c.flush_due(now, transitioning) && c.flushed(
            now,
            transitioning,
        ) == c,
        c.flushed(now, transitioning).size == c.size,
        c.flushed(now, transitioning).applied == c.applied,
        c.positioned(rect).size == c.size,
        c.positioned(rect).waiting_since == c.waiting_since,
{
}

/// A point of the main window is on the child exactly where it lies in the child's
/// rectangle; its place there is measured from the rectangle's corner.
pub proof fn places_on_the_child(c: ChildView, x: i32, y: i32)
    ensures
        ({
            let a = c.applied;
            &&& c.local(x, y) is Some <==> a.0 <= x && x - a.0 < a.2 && a.1 <= y && y - a.1 < a.3
            &&& c.local(x, y) matches Some(p) ==> a.0 + p.0 == x && a.1 + p.1 == y && p.0 < a.2
                && p.1 < a.3
        }),
{
}

/// The buffers get the size that was asked for last, once it is due.
pub proof fn buffers_get_the_last_size(
    c: ChildView,
    rect: (i32, i32, u32, u32),
    asked: u64,
    now: u64,
)
    requires
        now >= asked + 150,
    ensures
        c.resize_action(rect) == ResizeAction::Deferred ==> c.resized(rect, asked).flush_size(
            now,
            false,
        ) == Some((rect.2, rect.3)),
        c.waiting_since is None ==> c.flush_size(now, true) is None,
{
}

} // verus!
