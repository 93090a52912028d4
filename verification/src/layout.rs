//! Rectangles: where the viewer lies, and which border of the window a point is on.

use vstd::prelude::*;

verus! {

/// Logical width of the tree panel.
pub const TREE_WIDTH: u32 = 240;

/// Logical width of the thumbnail panel.
pub const THUMB_WIDTH: u32 = 220;

/// Logical height of the title bar.
pub const TOOLBAR_HEIGHT: u32 = 40;

/// Logical height of the status bar.
pub const STATUS_BAR_HEIGHT: u32 = 48;

/// Logical size of the window at the first start.
pub const DEFAULT_W: u32 = 1280;

pub const DEFAULT_H: u32 = 800;

/// Smallest logical size of the window.
pub const MIN_W: u32 = 480;

pub const MIN_H: u32 = 320;

/// A difference that stops at zero.
pub open spec fn minus(a: int, b: int) -> int {
    if a > b {
        a - b
    } else {
        0
    }
}

/// Takes one number off another, stopping at zero.
pub fn saturating_minus(a: u32, b: u64) -> (r: u32)
    ensures
        r == minus(a as int, b as int),
{
    if a as u64 > b {
        (a as u64 - b) as u32
    } else {
        0
    }
}

/// The viewer's rectangle in a window, beside the panels and between the bars.
pub open spec fn viewer_area(
    win: (int, int),
    tree_w: int,
    thumb_w: int,
    toolbar: int,
    status: int,
) -> (int, int, int, int) {
    (tree_w, toolbar, minus(win.0, tree_w + thumb_w), minus(win.1, toolbar + status))
}

/// The panels, the bars and the viewer fill the window, one beside the other; where there
/// is no room for the viewer, it is empty.
pub proof fn viewer_fills_the_rest(
    win: (int, int),
    tree_w: int,
    thumb_w: int,
    toolbar: int,
    status: int,
)
    requires
        tree_w >= 0,
        thumb_w >= 0,
        toolbar >= 0,
        status >= 0,
    ensures
        ({
            let v = viewer_area(win, tree_w, thumb_w, toolbar, status);
            &&& v.0 == tree_w && v.1 == toolbar
            &&& tree_w + thumb_w <= win.0 ==> v.0 + v.2 + thumb_w == win.0
            &&& toolbar + status <= win.1 ==> v.1 + v.3 + status == win.1
            &&& tree_w + thumb_w > win.0 ==> v.2 == 0
            &&& toolbar + status > win.1 ==> v.3 == 0
        }),
{
}

/// Computes the viewer's rectangle in a window: beside the panels, below the title
/// bar and above the status bar. All sizes are in physical pixels.
pub fn viewer_rect(
    win_w: u32,
    win_h: u32,
    tree_w: u32,
    thumb_w: u32,
    toolbar: u32,
    status: u32,
) -> (r: (i32, i32, u32, u32))
    requires
        tree_w <= i32::MAX,
        toolbar <= i32::MAX,
    ensures
        (r.0 as int, r.1 as int, r.2 as int, r.3 as int) == viewer_area(
            (win_w as int, win_h as int),
            tree_w as int,
            thumb_w as int,
            toolbar as int,
            status as int,
        ),
{
    let w: u32 = saturating_minus(win_w, tree_w as u64 + thumb_w as u64);
    let h: u32 = saturating_minus(win_h, toolbar as u64 + status as u64);
    (tree_w as i32, toolbar as i32, w, h)
}

/// A number kept between zero and a bound.
pub open spec fn within(x: int, top: int) -> int {
    if x < 0 {
        0
    } else if x > top {
        top
    } else {
        x
    }
}

/// A rectangle cut to a surface.
pub open spec fn cut(rect: (i32, i32, u32, u32), surface: (u32, u32)) -> (int, int, int, int) {
    let x = within(rect.0 as int, surface.0 as int);
    let y = within(rect.1 as int, surface.1 as int);
    (
        x,
        y,
        if rect.2 < surface.0 - x {
            rect.2 as int
        } else {
            surface.0 - x
        },
        if rect.3 < surface.1 - y {
            rect.3 as int
        } else {
            surface.1 - y
        },
    )
}

/// What is left of a rectangle lies on the surface.
pub proof fn cut_is_inside(rect: (i32, i32, u32, u32), surface: (u32, u32))
    ensures
        ({
            let c = cut(rect, surface);
            &&& 0 <= c.0 && 0 <= c.2 && c.0 + c.2 <= surface.0
            &&& 0 <= c.1 && 0 <= c.3 && c.1 + c.3 <= surface.1
            &&& c.2 <= rect.2 && c.3 <= rect.3
        }),
        0 <= rect.0 && 0 <= rect.1 && rect.0 + rect.2 <= surface.0 && rect.1 + rect.3 <= surface.1
            ==> cut(rect, surface) == (
            rect.0 as int,
            rect.1 as int,
            rect.2 as int,
            rect.3 as int,
        ),
{
}

/// What is left of a rectangle on a surface, where anything is.
pub open spec fn visible_part(rect: (i32, i32, u32, u32), surface: (u32, u32)) -> Option<
    (i32, i32, u32, u32),
> {
    let c = cut(rect, surface);
    if c.2 >= 1 && c.3 >= 1 {
        Some((c.0 as i32, c.1 as i32, c.2 as u32, c.3 as u32))
    } else {
        None
    }
}

/// A rectangle on the surface is left as it is; one without width or height, or beyond the
/// surface's right or lower edge, is gone.
pub proof fn parts_that_are_visible(rect: (i32, i32, u32, u32), surface: (u32, u32))
    requires
        surface.0 <= i32::MAX,
        surface.1 <= i32::MAX,
    ensures
        0 <= rect.0 && 0 <= rect.1 && rect.2 > 0 && rect.3 > 0 && rect.0 + rect.2 <= surface.0
            && rect.1 + rect.3 <= surface.1 ==> visible_part(rect, surface) == Some(rect),
        rect.2 == 0 || rect.3 == 0 || rect.0 >= surface.0 || rect.1 >= surface.1 ==> visible_part(
            rect,
            surface,
        ) is None,
        rect.2 > 0 && rect.3 > 0 && rect.0 < surface.0 && rect.1 < surface.1 && surface.0 > 0
            && surface.1 > 0 ==> visible_part(rect, surface) is Some,
        visible_part(rect, surface) matches Some(v) ==> 0 <= v.0 && 0 <= v.1 && v.2 > 0 && v.3 > 0
            && v.0 + v.2 <= surface.0 && v.1 + v.3 <= surface.1 && v.2 <= rect.2 && v.3 <= rect.3,
{
    cut_is_inside(rect, surface);
}

/// Cuts a rectangle to a surface; gives none where nothing is left.
pub fn clamp_to_surface(rect: (i32, i32, u32, u32), surface: (u32, u32)) -> (r: Option<
    (i32, i32, u32, u32),
>)
    requires
        surface.0 <= i32::MAX,
        surface.1 <= i32::MAX,
    ensures
        r == visible_part(rect, surface),
{
    let (px, py, pw, ph) = rect;
    let sw: i32 = surface.0 as i32;
    let sh: i32 = surface.1 as i32;
    let x: i32 = if px < 0 {
        0
    } else if px > sw {
        sw
    } else {
        px
    };
    let y: i32 = if py < 0 {
        0
    } else if py > sh {
        sh
    } else {
        py
    };
    let room_w: u32 = (sw - x) as u32;
    let room_h: u32 = (sh - y) as u32;
    let w: u32 = if pw < room_w {
        pw
    } else {
        room_w
    };
    let h: u32 = if ph < room_h {
        ph
    } else {
        room_h
    };
    if w >= 1 && h >= 1 {
        Some((x, y, w, h))
    } else {
        None
    }
}

/// A part of the window for the system's mouse handling, with the system's numbers.
pub const HT_CLIENT: i32 = 1;

pub const HT_LEFT: i32 = 10;

pub const HT_RIGHT: i32 = 11;

pub const HT_TOP: i32 = 12;

pub const HT_TOPLEFT: i32 = 13;

pub const HT_TOPRIGHT: i32 = 14;

pub const HT_BOTTOM: i32 = 15;

pub const HT_BOTTOMLEFT: i32 = 16;

pub const HT_BOTTOMRIGHT: i32 = 17;

/// A distance from a border lies in the zone that resizes the window. The zone is
/// eight pixels wide at 96 dots per inch, and wider in proportion above that.
pub open spec fn in_zone(distance: int, dpi: int) -> bool {
    12 * distance < if dpi < 96 {
        96
    } else {
        dpi
    }
}

/// The part of a window that a point is on. A window that fills the screen has no
/// borders; elsewhere corners come before sides.
pub open spec fn hit(
    rect: (i32, i32, i32, i32),
    x: int,
    y: int,
    dpi: int,
    fills_screen: bool,
) -> i32 {
    let (l, t, r, b) = rect;
    let left = in_zone(x - l, dpi);
    let right = in_zone(r - x, dpi);
    let top = in_zone(y - t, dpi);
    let bottom = in_zone(b - y, dpi);
    if fills_screen || r <= l || b <= t {
        HT_CLIENT
    } else if left && top {
        HT_TOPLEFT
    } else if right && top {
        HT_TOPRIGHT
    } else if left && bottom {
        HT_BOTTOMLEFT
    } else if right && bottom {
        HT_BOTTOMRIGHT
    } else if left {
        HT_LEFT
    } else if right {
        HT_RIGHT
    } else if top {
        HT_TOP
    } else if bottom {
        HT_BOTTOM
    } else {
        HT_CLIENT
    }
}

/// Decides which part of a window, given by its left, top, right and bottom edge, a
/// point is on.
pub fn hit_test(
    rect: (i32, i32, i32, i32),
    x: i16,
    y: i16,
    dpi: u32,
    fills_screen: bool,
) -> (r: i32)
    ensures
        r == hit(rect, x as int, y as int, dpi as int, fills_screen),
{
    let (l, t, rt, b) = rect;
    if fills_screen || rt <= l || b <= t {
        return HT_CLIENT;
    }
    let d: i64 = if dpi < 96 {
        96
    } else {
        dpi as i64
    };
    let left: bool = 12 * (x as i64 - l as i64) < d;
    let right: bool = 12 * (rt as i64 - x as i64) < d;
    let top: bool = 12 * (y as i64 - t as i64) < d;
    let bottom: bool = 12 * (b as i64 - y as i64) < d;
    if left && top {
        HT_TOPLEFT
    } else if right && top {
        HT_TOPRIGHT
    } else if left && bottom {
        HT_BOTTOMLEFT
    } else if right && bottom {
        HT_BOTTOMRIGHT
    } else if left {
        HT_LEFT
    } else if right {
        HT_RIGHT
    } else if top {
        HT_TOP
    } else if bottom {
        HT_BOTTOM
    } else {
        HT_CLIENT
    }
}

/// The zone that resizes the window is eight pixels wide up to 96 dots per inch, and a
/// twelfth of the dots above that.
pub proof fn zone_width(distance: int, dpi: int)
    ensures
        dpi <= 96 ==> (in_zone(distance, dpi) <==> distance < 8),
        dpi > 96 && dpi % 12 == 0 ==> (in_zone(distance, dpi) <==> distance < dpi / 12),
        in_zone(distance, dpi) ==> in_zone(distance - 1, dpi),
{
}

/// Where a point near the border resizes the window. `z` is the width of the zone, and
/// the window is so large that opposite zones do not meet: each side and each corner has
/// its own number, and what is inside is the client's.
pub proof fn borders_resize(rect: (i32, i32, i32, i32), x: int, y: int, z: int, dpi: int)
    requires
        dpi <= 96 ==> z == 8,
        dpi > 96 ==> dpi == 12 * z,
        rect.2 - rect.0 >= 2 * z,
        rect.3 - rect.1 >= 2 * z,
    ensures
        ({
            let part = hit(rect, x, y, dpi, false);
            let left = x - rect.0 < z;
            let right = rect.2 - x < z;
            let top = y - rect.1 < z;
            let bottom = rect.3 - y < z;
            &&& part == 13 <==> left && top
            &&& part == 14 <==> right && top
            &&& part == 16 <==> left && bottom
            &&& part == 17 <==> right && bottom
            &&& part == 10 <==> left && !top && !bottom
            &&& part == 11 <==> right && !top && !bottom
            &&& part == 12 <==> top && !left && !right
            &&& part == 15 <==> bottom && !left && !right
            &&& part == 1 <==> !left && !right && !top && !bottom
            &&& hit(rect, x, y, dpi, true) == 1
        }),
{
}

/// A rectangle that reaches over the surface is moved to its edge or cut there: it starts
/// at the nearest point of the surface, and is as large as it was or as there is room.
pub proof fn cut_keeps_what_fits(rect: (i32, i32, u32, u32), surface: (u32, u32))
    ensures
        ({
            let c = cut(rect, surface);
            &&& rect.0 <= 0 ==> c.0 == 0
            &&& 0 <= rect.0 <= surface.0 ==> c.0 == rect.0
            &&& rect.0 >= surface.0 ==> c.0 == surface.0 && c.2 == 0
            &&& rect.1 <= 0 ==> c.1 == 0
            &&& 0 <= rect.1 <= surface.1 ==> c.1 == rect.1
            &&& rect.1 >= surface.1 ==> c.1 == surface.1 && c.3 == 0
            &&& c.2 == rect.2 || c.0 + c.2 == surface.0
            &&& c.3 == rect.3 || c.1 + c.3 == surface.1
        }),
{
}

/// A side of a surface: at least one pixel.
pub open spec fn drawable(side: u32) -> u32 {
    if side == 0 {
        1
    } else {
        side
    }
}

/// A surface is as large as its window, and never empty.
pub proof fn surfaces_are_not_empty(side: u32)
    ensures
        drawable(side) >= 1,
        side >= 1 ==> drawable(side) == side,
        drawable(0) == 1,
{
}

/// The size of a surface for a window of this size: at least one pixel each way.
pub fn surface_size(w: u32, h: u32) -> (r: (u32, u32))
    ensures
        r.0 == drawable(w),
        r.1 == drawable(h),
{
    (
        if w == 0 {
            1
        } else {
            w
        },
        if h == 0 {
            1
        } else {
            h
        },
    )
}

/// How many thumbnails fit in the panel: at least one, at most a hundred.
pub open spec fn page_size(viewport_h: int) -> int {
    let n = viewport_h / 200;
    if n < 1 {
        1
    } else if n > 100 {
        100
    } else {
        n
    }
}

/// Computes how many thumbnails fit in the panel.
pub fn thumbs_per_page(viewport_h: u32) -> (r: usize)
    ensures
        r == page_size(viewport_h as int),
        1 <= r <= 100,
{
    let n: u32 = viewport_h / 200;
    if n < 1 {
        1
    } else if n > 100 {
        100
    } else {
        n as usize
    }
}

} // verus!
