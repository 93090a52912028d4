//! What holds of the main window whatever the user does.

use vstd::prelude::*;
use crate::actions::ActionView;
use crate::fs::ListingView;
use crate::keys::{Button, Key};
use crate::path::PathView;
use crate::window::{WindowView, CHROME_HIDE_MILLIS};

verus! {

/// A folder without images leaves the image, the thumbnails and the settings as they
/// are.
pub proof fn empty_folder_changes_nothing(
    w: WindowView,
    folder: PathView,
    listing: ListingView,
)
    requires
        !crate::fs::has_images(listing),
    ensures
        w.folder_entered(folder, listing) == w.unchanged(),
{
}

/// A folder with images that is gone to is the last one and the first of the recent
/// ones, and its first image is the current one unless it was open already.
pub proof fn entered_folder_is_noted(w: WindowView, folder: PathView, listing: ListingView)
    requires
        crate::fs::has_images(listing),
    ensures
        ({
            let s = w.folder_entered(folder, listing).state;
            &&& s.settings.last_folder == Some(folder)
            &&& s.settings.recent.len() > 0
            &&& s.settings.recent[0] == folder
            &&& s.nav.is_open(folder)
            &&& !w.nav.is_open(folder) ==> s.nav.folder == Some(folder) && s.nav.index == 0
            &&& s.settings.favorites == w.settings.favorites
        }),
{
    crate::settings::fronted_law(
        w.settings.recent,
        folder,
        crate::settings::MAX_RECENT as int,
    );
}

/// The position stays on an image whatever is done: actions, keys, frames, folders.
pub proof fn position_stays_valid(
    w: WindowView,
    action: ActionView,
    key: Key,
    ctrl: bool,
    now: u64,
    folder: PathView,
    file: PathView,
    listing: ListingView,
)
    requires
        w.valid(),
    ensures
        w.acted(action, now).state.valid(),
        w.key_down(key, ctrl, now).state.valid(),
        w.frame_stepped(now).state.valid(),
        w.folder_entered(folder, listing).state.valid(),
        w.folder_picked(folder, listing).state.valid(),
        w.file_opened(folder, file, listing).state.valid(),
{
    broadcast use navigation_valid;

    let o = w.nav.opened(folder, listing);
    crate::nav::navigation_stays_valid(
        w.nav,
        crate::nav::NavigationDirection::Next,
        0,
        folder,
        listing,
    );
    let at = crate::seqs::first_where(o.items, crate::window::item_of(file));
    crate::nav::navigation_stays_valid(
        o,
        crate::nav::NavigationDirection::Next,
        at,
        folder,
        listing,
    );
}

broadcast proof fn navigation_valid(nav: crate::nav::NavView, dir: crate::nav::NavigationDirection, i: int)
    requires
        nav.valid(),
    ensures
        (#[trigger] nav.moved(dir)).valid(),
        (#[trigger] nav.jumped(i)).valid(),
{
    crate::nav::navigation_stays_valid(nav, dir, i, PathView::empty(), ListingView::NotADirectory);
}

/// Changing the fullscreen mode twice gives the first mode back, and leaves the
/// panels, the image and the settings as they are.
pub proof fn fullscreen_twice(w: WindowView, now: u64, later: u64)
    ensures
        ({
            let s = w.fullscreen_toggled(now).state.fullscreen_toggled(later).state;
            s == (WindowView { help: false, chrome: true, chrome_at: s.chrome_at, ..w })
        }),
{
}

/// Changing the theme twice gives the first theme back, and the theme shown is
/// always the one saved.
pub proof fn theme_twice(w: WindowView, now: u64, later: u64)
    ensures
        ({
            let once = w.acted(ActionView::ToggleTheme, now).state;
            let twice = once.acted(ActionView::ToggleTheme, later).state;
            &&& twice.theme == w.theme
            &&& once.theme != w.theme
            &&& crate::settings::theme_of(once.settings.theme) == once.theme
            &&& crate::settings::theme_of(twice.settings.theme) == twice.theme
        }),
{
    crate::settings::theme_round_trip(w.theme);
    crate::settings::theme_round_trip(w.theme.other());
}

/// A jump by pages ends on an image of the folder, and one page forward and back ends
/// where it started unless an end of the folder was in the way.
pub proof fn pages_stay_inside(w: WindowView, delta: int)
    requires
        w.valid(),
        w.nav.items.len() > 0,
        w.nav.items.len() <= usize::MAX,
    ensures
        0 <= w.page_target(delta) < w.nav.items.len(),
        w.paged(delta).state.nav.index == w.page_target(delta),
        ({
            let by = delta * crate::layout::page_size(w.viewport.1 as int);
            0 <= w.nav.index + by < w.nav.items.len() ==> w.paged(delta).state.page_target(-delta)
                == w.nav.index
        }),
{
    let n = crate::layout::page_size(w.viewport.1 as int);
    assert((-delta) * n == -(delta * n)) by (nonlinear_arith);
}

/// Cycling stays among the folders of the list, and a step forward and a step back
/// lead to the folder they started from.
pub proof fn cycling_goes_round(list: Seq<PathView>, folder: PathView, dir: int)
    requires
        list.len() > 0,
    ensures
        list.contains(crate::window::cycled(list, folder, dir)),
        crate::settings::distinct_folders(list) && crate::settings::holds(list, folder)
            ==> crate::window::cycled(
            list,
            crate::window::cycled(list, folder, dir),
            -dir,
        ).same(folder),
{
    let n = list.len() as int;
    let f = crate::window::is_folder(folder);
    crate::seqs::first_where_is(list, f);
    let at = crate::seqs::first_where(list, f);
    let from = if at < n {
        at
    } else {
        0
    };
    let to = (from + dir) % n;
    assert(0 <= to < n) by (nonlinear_arith)
        requires
            n > 0,
            to == (from + dir) % n,
    ;
    let next = list[to];
    assert(list.contains(next));
    if crate::settings::distinct_folders(list) && crate::settings::holds(list, folder) {
        let k = choose|k: int| 0 <= k < list.len() && (#[trigger] list[k]).same(folder);
        assert(f(list[k]));
        assert(at < n);
        let g = crate::window::is_folder(next);
        crate::seqs::first_where_unique(list, g, to);
        vstd::arithmetic::div_mod::lemma_fundamental_div_mod(from + dir, n);
        let q = (from + dir) / n;
        assert(to - dir == (-q) * n + from) by (nonlinear_arith)
            requires
                from + dir == n * q + to,
        ;
        vstd::arithmetic::div_mod::lemma_fundamental_div_mod_converse(to - dir, n, -q, from);
        assert(to + (-dir) == to - dir);
    }
}

/// The controls of a full screen stay as long as the pointer is over them, and for
/// their whole time after it moved.
pub proof fn controls_stay_while_used(w: WindowView, now: u64, later: u64)
    requires
        w.fullscreen,
    ensures
        w.chrome ==> w.chrome_ticked(true, now).chrome,
        w.woken(now).chrome,
        now <= later < now + CHROME_HIDE_MILLIS ==> w.woken(now).chrome_ticked(false, later).chrome,
        later >= now + CHROME_HIDE_MILLIS ==> !w.woken(now).chrome_ticked(false, later).chrome,
{
}

/// A release of the left button ends all dragging, and no other release or press
/// does.
pub proof fn release_ends_dragging(
    w: WindowView,
    button: Button,
    pressed: bool,
    edge: Option<u8>,
    in_viewer: bool,
    now: u64,
)
    ensures
        ({
            let s = w.moused(button, pressed, edge, in_viewer, now);
            if button == Button::Left && !pressed {
                s.drag is None && !s.panning
            } else {
                (w.drag is Some ==> s.drag is Some) && (w.panning ==> s.panning)
            }
        }),
{
}

/// Once an arrow key is let go, no frame moves on to another image.
pub proof fn no_walk_after_release(w: WindowView, key: Key, now: u64)
    requires
        crate::keys::step_of(key) is Some,
    ensures
        ({
            let s = WindowView { arrows: w.arrows.let_go(key), ..w };
            s.frame_stepped(now) == s.unchanged()
        }),
{
    let s = WindowView { arrows: w.arrows.let_go(key), ..w };
    crate::keys::release_brakes(w.arrows, key, now, now);
    assert(s.frame_stepped(now).state =~= s);
}

} // verus!
