//! What holds of the main window's answers to keys, the mouse and the frames.

use vstd::prelude::*;
use crate::actions::ActionView;
use crate::effect::EffectView;
use crate::keys::{ArrowStep, Button, HoldView, Key, KeyCommand};
use crate::nav::NavView;
use crate::settings::{SettingsView, ThemeSetting};
use crate::viewer::SlideDir;
use crate::window::{MouseOutcome, Outcome, WindowView};

verus! {

/// The keys for a larger image.
pub open spec fn is_plus(key: Key) -> bool {
    key == Key::Equal || key == Key::NumpadAdd
}

/// The keys for a smaller image.
pub open spec fn is_minus(key: Key) -> bool {
    key == Key::Minus || key == Key::NumpadSubtract
}

/// The arrow keys that go back.
pub open spec fn goes_back(key: Key) -> bool {
    key == Key::ArrowLeft || key == Key::ArrowUp
}

/// The arrow keys that go forward.
pub open spec fn goes_on(key: Key) -> bool {
    key == Key::ArrowRight || key == Key::ArrowDown
}

/// The keys that ask for something only with the control key.
pub open spec fn needs_ctrl(key: Key) -> bool {
    is_plus(key) || is_minus(key) || key == Key::Digit0 || key == Key::KeyW || key == Key::KeyE
        || key == Key::KeyD || key == Key::Slash
}

/// The keys that ask for nothing.
pub open spec fn means_nothing(key: Key) -> bool {
    key == Key::Enter || key == Key::Tab || key == Key::Backspace || key == Key::Delete || key
        == Key::Space || key == Key::Other
}

/// Each command, with the keys that ask for it and no others.
pub proof fn keys_of_the_commands(key: Key, ctrl: bool, fullscreen: bool)
    ensures
        ({
            let c = crate::keys::command_of(key, ctrl, fullscreen);
            &&& c == Some(KeyCommand::ZoomIn) <==> ctrl && is_plus(key)
            &&& c == Some(KeyCommand::ZoomOut) <==> ctrl && is_minus(key)
            &&& c == Some(KeyCommand::Fit) <==> (!ctrl && key == Key::KeyF) || (ctrl && key
                == Key::Digit0)
            &&& c == Some(KeyCommand::ToggleFullscreen) <==> (ctrl && key == Key::KeyF) || (
            fullscreen && key == Key::Escape)
            &&& c == Some(KeyCommand::Quit) <==> !fullscreen && key == Key::Escape
            &&& c == Some(KeyCommand::CycleFolder(-1i32)) <==> ctrl && goes_back(key)
            &&& c == Some(KeyCommand::CycleFolder(1i32)) <==> ctrl && goes_on(key)
            &&& c == Some(KeyCommand::Arrow(ArrowStep::Previous)) <==> !ctrl && goes_back(key)
            &&& c == Some(KeyCommand::Arrow(ArrowStep::Next)) <==> !ctrl && goes_on(key)
            &&& c == Some(KeyCommand::Page(-1i32)) <==> key == Key::PageUp
            &&& c == Some(KeyCommand::Page(1i32)) <==> key == Key::PageDown
            &&& c == Some(KeyCommand::First) <==> key == Key::Home
            &&& c == Some(KeyCommand::Last) <==> key == Key::End
            &&& c == Some(KeyCommand::SetWallpaper) <==> ctrl && key == Key::KeyW
            &&& c == Some(KeyCommand::OpenInExplorer) <==> ctrl && key == Key::KeyE
            &&& c == Some(KeyCommand::ToggleFavorite) <==> ctrl && key == Key::KeyD
            &&& c == Some(KeyCommand::ToggleShortcutHelp) <==> ctrl && key == Key::Slash
            &&& c is None <==> means_nothing(key) || (!ctrl && needs_ctrl(key))
        }),
{
}

/// The arrow keys step, back or on, and no other key does.
pub proof fn steps_of_the_keys(key: Key)
    ensures
        crate::keys::step_of(key) == Some(ArrowStep::Previous) <==> goes_back(key),
        crate::keys::step_of(key) == Some(ArrowStep::Next) <==> goes_on(key),
        crate::keys::step_of(key) is None <==> !goes_back(key) && !goes_on(key),
{
}

/// The image is made larger by the plus keys with control and by no others, and smaller
/// by the minus keys with control and by no others, on a full screen or not. It is
/// fitted to the window by F alone and by zero with control.
pub proof fn zoom_keys(w: WindowView, key: Key, ctrl: bool, now: u64)
    ensures
        ({
            let t = w.key_down(key, ctrl, now).todo;
            &&& t.contains(EffectView::ZoomIn) <==> ctrl && is_plus(key)
            &&& t.contains(EffectView::ZoomOut) <==> ctrl && is_minus(key)
            &&& t.contains(EffectView::FitToScreen) <==> (!ctrl && key == Key::KeyF) || (ctrl
                && key == Key::Digit0)
            &&& !t.contains(EffectView::ActualSize)
            &&& ctrl && (is_plus(key) || is_minus(key) || key == Key::Digit0)
                ==> w.key_down(key, ctrl, now).state == w && t.len() == 2 && t.contains(
                EffectView::Redraw,
            )
        }),
{
    let o = w.key_down(key, ctrl, now);
    if ctrl && is_plus(key) {
        assert(o.todo[0] == EffectView::ZoomIn && o.todo[1] == EffectView::Redraw);
    }
    if ctrl && is_minus(key) {
        assert(o.todo[0] == EffectView::ZoomOut && o.todo[1] == EffectView::Redraw);
    }
    if (!ctrl && key == Key::KeyF) || (ctrl && key == Key::Digit0) {
        assert(o.todo[0] == EffectView::FitToScreen && o.todo[1] == EffectView::Redraw);
    }
}

/// Escape leaves the full screen, and ends the program elsewhere, which saves the
/// window's place; no other key ends it. Control and F change the full screen mode.
pub proof fn leaving_keys(w: WindowView, key: Key, ctrl: bool, now: u64, on: bool)
    ensures
        ({
            let o = w.key_down(key, ctrl, now);
            &&& o.todo.contains(EffectView::Exit) <==> key == Key::Escape && !w.fullscreen
            &&& o.todo.contains(EffectView::SaveGeometry) <==> o.todo.contains(EffectView::Exit)
            &&& o.todo.contains(EffectView::SetFullscreen(on)) <==> on != w.fullscreen && ((ctrl
                && key == Key::KeyF) || (key == Key::Escape && w.fullscreen))
            &&& o.state.fullscreen != w.fullscreen <==> (ctrl && key == Key::KeyF) || (key
                == Key::Escape && w.fullscreen)
        }),
{
    let o = w.key_down(key, ctrl, now);
    if key == Key::Escape && !w.fullscreen {
        assert(o.todo[0] == EffectView::SaveGeometry && o.todo[1] == EffectView::Exit);
    }
    if (ctrl && key == Key::KeyF) || (key == Key::Escape && w.fullscreen) {
        if w.fullscreen {
            assert(o.todo[2] == EffectView::SetFullscreen(false));
        } else {
            assert(o.todo[3] == EffectView::SetFullscreen(true));
        }
    }
}

/// Going to or from the full screen closes the help and shows the controls, marks the
/// image's place for the way over, and takes the frame away or gives it back. Nothing
/// else of the window changes.
pub proof fn fullscreen_mode(w: WindowView, now: u64)
    ensures
        ({
            let o = w.fullscreen_toggled(now);
            &&& o.state.fullscreen == !w.fullscreen
            &&& !o.state.help
            &&& o.state.chrome
            &&& o.state.fullscreen ==> o.state.chrome_at == Some(now)
            &&& !o.state.fullscreen ==> o.state.chrome_at is None
            &&& o.state == (WindowView {
                help: false,
                chrome: true,
                fullscreen: o.state.fullscreen,
                chrome_at: o.state.chrome_at,
                ..w
            })
            &&& o.todo.contains(EffectView::MarkViewportTransition)
            &&& o.todo.contains(EffectView::ThickFrame(w.fullscreen))
            &&& o.todo.contains(EffectView::SetFullscreen(!w.fullscreen))
            &&& o.todo.contains(EffectView::ResetTravel) <==> !w.fullscreen
            &&& w.acted(ActionView::ToggleFullscreen, now) == o
            &&& w.key_down(Key::KeyF, true, now) == o
            &&& w.fullscreen ==> w.key_down(Key::Escape, false, now) == o
        }),
{
    let t = w.fullscreen_toggled(now).todo;
    assert(t[0] == EffectView::MarkViewportTransition);
    if w.fullscreen {
        assert(t[1] == EffectView::ThickFrame(true) && t[2] == EffectView::SetFullscreen(false));
        assert(!t.contains(EffectView::ResetTravel));
    } else {
        assert(t[1] == EffectView::ResetTravel && t[2] == EffectView::ThickFrame(false));
        assert(t[3] == EffectView::SetFullscreen(true));
    }
}

/// Control with an arrow key asks for the folder before or after, and nothing else does.
pub proof fn folder_keys(w: WindowView, key: Key, ctrl: bool, now: u64, d: i32)
    ensures
        ({
            let o = w.key_down(key, ctrl, now);
            &&& o.todo.contains(EffectView::CycleFolder(d)) <==> ctrl && ((d == -1 && goes_back(
                key,
            )) || (d == 1 && goes_on(key)))
            &&& ctrl && (goes_back(key) || goes_on(key)) ==> o.state == w && o.todo.len() == 1
        }),
{
    let o = w.key_down(key, ctrl, now);
    if ctrl && goes_back(key) {
        assert(o.todo[0] == EffectView::CycleFolder(-1i32));
    }
    if ctrl && goes_on(key) {
        assert(o.todo[0] == EffectView::CycleFolder(1i32));
    }
}

/// What a step to another image asks for.
pub open spec fn asks_for_image(todo: Seq<EffectView>, slide: SlideDir) -> bool {
    &&& todo.len() == 2
    &&& todo.contains(EffectView::RequestCurrent(slide))
    &&& todo.contains(EffectView::Redraw)
}

/// The state is another only in the position and the held key.
pub open spec fn moved_only(before: WindowView, after: WindowView) -> bool {
    after == (WindowView {
        nav: NavView { index: after.nav.index, ..before.nav },
        arrows: after.arrows,
        ..before
    })
}

/// A press of an arrow key shows the image before or after at once, round the ends of the
/// folder, and slides it in from that side. A press of the key that is held already does
/// nothing: the frames step then.
pub proof fn arrow_keys(w: WindowView, key: Key, now: u64)
    requires
        w.valid(),
        w.nav.items.len() > 0,
        goes_back(key) || goes_on(key),
    ensures
        ({
            let o = w.key_down(key, false, now);
            let n = w.nav.items.len();
            &&& moved_only(w, o.state)
            &&& o.state.arrows.held == Some(key)
            &&& w.arrows.held == Some(key) ==> o.state.nav == w.nav && o.todo.len() == 0
            &&& w.arrows.held != Some(key) && goes_on(key) ==> {
                &&& o.state.nav.index == if w.nav.index + 1 < n {
                    w.nav.index + 1
                } else {
                    0
                }
                &&& asks_for_image(o.todo, SlideDir::Next)
            }
            &&& w.arrows.held != Some(key) && goes_back(key) ==> {
                &&& o.state.nav.index == if w.nav.index > 0 {
                    w.nav.index - 1
                } else {
                    n - 1
                }
                &&& asks_for_image(o.todo, SlideDir::Previous)
            }
        }),
{
    crate::nav_laws::steps_lead_where_they_say(w.nav, 0);
    let o = w.key_down(key, false, now);
    if w.arrows.held != Some(key) {
        assert(o.todo[1] == EffectView::Redraw);
        assert(o.todo[0] is RequestCurrent);
        assert(o.todo.contains(o.todo[0]));
    }
}

/// While an arrow key is held, a frame shows the next image in the same direction once
/// the time for it has come, and before that does nothing. Without a held key no frame
/// does anything.
pub proof fn held_arrows(w: WindowView, key: Key, pressed_at: u64, now: u64)
    requires
        w.valid(),
        w.nav.items.len() > 0,
        goes_back(key) || goes_on(key),
        w.arrows.held != Some(key),
        pressed_at <= now,
    ensures
        ({
            let s = w.key_down(key, false, pressed_at).state;
            let o = s.frame_stepped(now);
            let n = w.nav.items.len();
            &&& now < pressed_at + 200 ==> o.state == s && o.todo.len() == 0
            &&& now >= pressed_at + 200 ==> {
                &&& moved_only(s, o.state)
                &&& o.state.arrows == (HoldView { last_step: Some(now), ..s.arrows })
                &&& goes_on(key) ==> o.state.nav.index == (if s.nav.index + 1 < n {
                    s.nav.index + 1
                } else {
                    0
                }) && asks_for_image(o.todo, SlideDir::Next)
                &&& goes_back(key) ==> o.state.nav.index == (if s.nav.index > 0 {
                    s.nav.index - 1
                } else {
                    n - 1
                }) && asks_for_image(o.todo, SlideDir::Previous)
            }
        }),
{
    let s = w.key_down(key, false, pressed_at).state;
    crate::nav_laws::steps_lead_where_they_say(w.nav, 0);
    assert(s.nav.valid());
    crate::nav_laws::steps_lead_where_they_say(s.nav, 0);
    let o = s.frame_stepped(now);
    if now >= pressed_at + 200 {
        assert(o.todo[1] == EffectView::Redraw);
        assert(o.todo.contains(o.todo[0]));
    } else {
        assert(o.state =~= s);
    }
}

/// Home shows the first image and End the last. The page keys go a page of thumbnails
/// back or on, and stop at the ends. None of these slides the image in.
pub proof fn jump_keys(w: WindowView, ctrl: bool, now: u64)
    requires
        w.valid(),
        0 < w.nav.items.len() <= usize::MAX,
    ensures
        ({
            let n = w.nav.items.len();
            let page = crate::layout::page_size(w.viewport.1 as int);
            let first = w.key_down(Key::Home, ctrl, now);
            let last = w.key_down(Key::End, ctrl, now);
            let up = w.key_down(Key::PageUp, ctrl, now);
            let down = w.key_down(Key::PageDown, ctrl, now);
            &&& first.state == (WindowView { nav: NavView { index: 0, ..w.nav }, ..w })
            &&& last.state == (WindowView { nav: NavView { index: n - 1, ..w.nav }, ..w })
            &&& up.state == (WindowView {
                nav: NavView {
                    index: if w.nav.index >= page {
                        w.nav.index - page
                    } else {
                        0
                    },
                    ..w.nav
                },
                ..w
            })
            &&& down.state == (WindowView {
                nav: NavView {
                    index: if w.nav.index + page < n {
                        w.nav.index + page
                    } else {
                        n - 1
                    },
                    ..w.nav
                },
                ..w
            })
            &&& asks_for_image(first.todo, SlideDir::NoSlide)
            &&& asks_for_image(last.todo, SlideDir::NoSlide)
            &&& asks_for_image(up.todo, SlideDir::NoSlide)
            &&& asks_for_image(down.todo, SlideDir::NoSlide)
        }),
{
    let page = crate::layout::page_size(w.viewport.1 as int);
    assert((-1) * page == -page) by (nonlinear_arith);
    assert(1 * page == page) by (nonlinear_arith);
    let up = w.page_target(-1) as usize;
    let down = w.page_target(1) as usize;
    crate::nav_laws::steps_lead_where_they_say(w.nav, up);
    crate::nav_laws::steps_lead_where_they_say(w.nav, down);
    let first = w.key_down(Key::Home, ctrl, now);
    let last = w.key_down(Key::End, ctrl, now);
    let o = w.key_down(Key::PageUp, ctrl, now);
    let p = w.key_down(Key::PageDown, ctrl, now);
    assert(first.todo[0] == EffectView::RequestCurrent(SlideDir::NoSlide));
    assert(first.todo[1] == EffectView::Redraw);
    assert(last.todo[0] == EffectView::RequestCurrent(SlideDir::NoSlide));
    assert(last.todo[1] == EffectView::Redraw);
    assert(o.todo[0] == EffectView::RequestCurrent(SlideDir::NoSlide));
    assert(o.todo[1] == EffectView::Redraw);
    assert(p.todo[0] == EffectView::RequestCurrent(SlideDir::NoSlide));
    assert(p.todo[1] == EffectView::Redraw);
}

/// A page holds one thumbnail for each two hundred points of height, at least one and at
/// most a hundred.
pub proof fn page_holds(height: int)
    requires
        height >= 0,
    ensures
        ({
            let n = crate::layout::page_size(height);
            &&& 1 <= n <= 100
            &&& 1 < n ==> n * 200 <= height
            &&& n < 100 ==> height < (n + 1) * 200
        }),
{
}

/// An action that a key leaves for the end of the frame: it comes after those that wait
/// already, and nothing else happens.
pub open spec fn waits(w: WindowView, o: Outcome, action: ActionView) -> bool {
    &&& o.todo.len() == 0
    &&& o.state == (WindowView { queue: o.state.queue, ..w })
    &&& o.state.queue.len() == w.queue.len() + 1
    &&& o.state.queue.last() == action
    &&& o.state.queue.drop_last() == w.queue
}

/// Control with W, E, D and the slash leave an action for the end of the frame: the
/// wallpaper, the explorer, the favorite and the help. No other key leaves one, and keys
/// that mean nothing change nothing.
pub proof fn action_keys(w: WindowView, key: Key, ctrl: bool, now: u64)
    ensures
        waits(w, w.key_down(Key::KeyW, true, now), ActionView::SetWallpaper),
        waits(w, w.key_down(Key::KeyE, true, now), ActionView::OpenInExplorer),
        waits(w, w.key_down(Key::KeyD, true, now), ActionView::ToggleFavorite),
        waits(w, w.key_down(Key::Slash, true, now), ActionView::ToggleShortcutHelp),
        w.key_down(key, ctrl, now).state.queue != w.queue ==> ctrl && (key == Key::KeyW || key
            == Key::KeyE || key == Key::KeyD || key == Key::Slash),
        means_nothing(key) || (!ctrl && needs_ctrl(key)) ==> w.key_down(key, ctrl, now).state == w
            && w.key_down(key, ctrl, now).todo.len() == 0,
{
    assert(w.queue.push(ActionView::SetWallpaper).drop_last() =~= w.queue);
    assert(w.queue.push(ActionView::OpenInExplorer).drop_last() =~= w.queue);
    assert(w.queue.push(ActionView::ToggleFavorite).drop_last() =~= w.queue);
    assert(w.queue.push(ActionView::ToggleShortcutHelp).drop_last() =~= w.queue);
}

/// The buttons for the image before and after do as the arrow keys do.
pub proof fn step_actions(w: WindowView, now: u64)
    requires
        w.valid(),
        w.nav.items.len() > 0,
    ensures
        ({
            let n = w.nav.items.len();
            let p = w.acted(ActionView::Prev, now);
            let q = w.acted(ActionView::Next, now);
            &&& moved_only(w, p.state) && p.state.arrows == w.arrows
            &&& moved_only(w, q.state) && q.state.arrows == w.arrows
            &&& p.state.nav.index == if w.nav.index > 0 {
                w.nav.index - 1
            } else {
                n - 1
            }
            &&& q.state.nav.index == if w.nav.index + 1 < n {
                w.nav.index + 1
            } else {
                0
            }
            &&& asks_for_image(p.todo, SlideDir::Previous)
            &&& asks_for_image(q.todo, SlideDir::Next)
        }),
{
    crate::nav_laws::steps_lead_where_they_say(w.nav, 0);
    let p = w.acted(ActionView::Prev, now);
    let q = w.acted(ActionView::Next, now);
    assert(p.todo[0] == EffectView::RequestCurrent(SlideDir::Previous));
    assert(p.todo[1] == EffectView::Redraw);
    assert(q.todo[0] == EffectView::RequestCurrent(SlideDir::Next));
    assert(q.todo[1] == EffectView::Redraw);
}

/// A click on a thumbnail shows its image, without a slide; one that is not there does
/// nothing.
pub proof fn thumbnail_clicks(w: WindowView, now: u64, i: usize)
    ensures
        ({
            let o = w.acted(ActionView::ThumbClicked(i), now);
            &&& i < w.nav.items.len() ==> {
                &&& o.state == (WindowView { nav: NavView { index: i as int, ..w.nav }, ..w })
                &&& o.state.nav.current() == Some(w.nav.items[i as int])
                &&& asks_for_image(o.todo, SlideDir::NoSlide)
            }
            &&& i >= w.nav.items.len() ==> o.state == w && o.todo.len() == 0
        }),
{
    let o = w.acted(ActionView::ThumbClicked(i), now);
    if i < w.nav.items.len() {
        assert(o.todo[0] == EffectView::RequestCurrent(SlideDir::NoSlide));
        assert(o.todo[1] == EffectView::Redraw);
    }
}

/// The panels open and close each for itself; that closes the help and lays the window
/// out anew. The help opens and closes alone.
pub proof fn panel_actions(w: WindowView, now: u64)
    ensures
        w.acted(ActionView::ToggleTree, now).state == (WindowView {
            show_tree: !w.show_tree,
            help: false,
            ..w
        }),
        w.acted(ActionView::ToggleTree, now).todo == seq![EffectView::Relayout],
        w.acted(ActionView::ToggleThumbs, now).state == (WindowView {
            show_thumbs: !w.show_thumbs,
            help: false,
            ..w
        }),
        w.acted(ActionView::ToggleThumbs, now).todo == seq![EffectView::Relayout],
        w.acted(ActionView::ToggleShortcutHelp, now).state == (WindowView { help: !w.help, ..w }),
        w.acted(ActionView::ToggleShortcutHelp, now).todo.len() == 0,
        w.acted(ActionView::ToggleShortcutHelp, now).state.acted(
            ActionView::ToggleShortcutHelp,
            now,
        ).state == w,
{
}

/// What is asked of the window and of the system: each action asks for one thing, and
/// leaves the window as it is. The wallpaper and the explorer are for the current image.
pub proof fn outward_actions(w: WindowView, now: u64)
    ensures
        w.acted(ActionView::ExitApp, now).todo == seq![EffectView::SaveGeometry, EffectView::Exit],
        w.acted(ActionView::MinimizeWindow, now).todo == seq![EffectView::Minimize],
        w.acted(ActionView::ToggleMaximize, now).todo == seq![EffectView::ToggleMaximize],
        w.acted(ActionView::Fit, now).todo == seq![EffectView::FitToScreen, EffectView::Redraw],
        w.acted(ActionView::OneToOne, now).todo == seq![EffectView::ActualSize, EffectView::Redraw],
        w.valid() && w.nav.items.len() > 0 ==> {
            let path = w.nav.items[w.nav.index].path;
            &&& w.acted(ActionView::SetWallpaper, now).todo == seq![EffectView::SetWallpaper(path)]
            &&& w.acted(ActionView::OpenInExplorer, now).todo
                == seq![EffectView::RevealInExplorer(path)]
        },
        w.nav.items.len() == 0 ==> {
            &&& w.acted(ActionView::SetWallpaper, now).todo.len() == 0
            &&& w.acted(ActionView::OpenInExplorer, now).todo.len() == 0
            &&& w.acted(ActionView::ToggleFavorite, now).todo.len() == 0
            &&& w.acted(ActionView::ToggleFavorite, now).state == w
        },
        w.acted(ActionView::ExitApp, now).state == w,
        w.acted(ActionView::MinimizeWindow, now).state == w,
        w.acted(ActionView::ToggleMaximize, now).state == w,
        w.acted(ActionView::Fit, now).state == w,
        w.acted(ActionView::OneToOne, now).state == w,
        w.acted(ActionView::SetWallpaper, now).state == w,
        w.acted(ActionView::OpenInExplorer, now).state == w,
{
    crate::nav_laws::current_is_at_the_position(w.nav);
}

/// The theme goes from dark to light and back; the new one is saved by its name.
pub proof fn theme_action(w: WindowView, now: u64)
    ensures
        ({
            let o = w.acted(ActionView::ToggleTheme, now);
            &&& w.theme == ThemeSetting::Dark ==> o.state.theme == ThemeSetting::Light
                && o.state.settings.theme == Some("light"@)
            &&& w.theme == ThemeSetting::Light ==> o.state.theme == ThemeSetting::Dark
                && o.state.settings.theme == Some("dark"@)
            &&& o.state == (WindowView {
                theme: o.state.theme,
                settings: SettingsView { theme: o.state.settings.theme, ..w.settings },
                ..w
            })
            &&& o.todo == seq![EffectView::SaveSettings]
            &&& o.state.plan().set_visuals || w.visuals == Some(o.state.theme)
        }),
{
}

/// What a mouse button comes to. A press of the left button on a panel's edge takes hold
/// of it, but not on a full screen. Elsewhere over the image it starts to move the image,
/// and a press of the right button shows the image's menu; beside the image all goes on
/// to the user interface.
pub proof fn mouse_buttons(
    w: WindowView,
    button: Button,
    pressed: bool,
    edge: Option<u8>,
    in_viewer: bool,
    now: u64,
)
    ensures
        ({
            let r = w.mouse_outcome(button, pressed, edge, in_viewer, now);
            let s = w.moused(button, pressed, edge, in_viewer, now);
            let left = button == Button::Left;
            let on_edge = edge is Some && !w.fullscreen;
            let follows = left && pressed && !on_edge && in_viewer;
            &&& left && pressed && on_edge ==> r == MouseOutcome::Consumed && s == (WindowView {
                help: false,
                drag: edge,
                hover: edge,
                ..w
            })
            &&& follows <==> r == MouseOutcome::StartPan || r == MouseOutcome::DoubleClick
            &&& follows ==> s == (WindowView {
                panning: true,
                last_click: s.last_click,
                ..w
            })
            &&& button == Button::Right && pressed && in_viewer <==> r
                == MouseOutcome::ShowImageMenu
            &&& left && !pressed ==> s == (WindowView { panning: false, drag: None, ..w })
            &&& left && !pressed && w.drag is Some ==> r == MouseOutcome::Consumed
            &&& !in_viewer && !(left && pressed && on_edge) && !(left && !pressed && w.drag is Some)
                <==> r == MouseOutcome::Forward
            &&& !left ==> s == w
            &&& left && pressed && !on_edge && !in_viewer ==> s == w
        }),
{
}

/// Two presses over the image within the time of a double click are one, and the third
/// is again a first; presses further apart are not.
pub proof fn double_clicks(w: WindowView, first: u64, second: u64, third: u64)
    requires
        w.last_click is None,
        first <= second,
    ensures
        ({
            let s = w.moused(Button::Left, true, None, true, first);
            let t = s.moused(Button::Left, true, None, true, second);
            let double = second < first + 350;
            &&& w.mouse_outcome(Button::Left, true, None, true, first) == MouseOutcome::StartPan
            &&& s.mouse_outcome(Button::Left, true, None, true, second)
                == MouseOutcome::DoubleClick <==> double
            &&& double ==> t.mouse_outcome(Button::Left, true, None, true, third)
                == MouseOutcome::StartPan
            &&& !double && second <= third ==> (t.mouse_outcome(
                Button::Left,
                true,
                None,
                true,
                third,
            ) == MouseOutcome::DoubleClick <==> third < second + 350)
        }),
{
}

/// On a full screen nothing but the image shows, and the controls while they are there.
/// Elsewhere the bars show, and the panels that are open.
pub proof fn frames_show(w: WindowView)
    ensures
        ({
            let p = w.plan();
            &&& w.fullscreen ==> !p.titlebar && !p.statusbar && !p.tree_open && !p.thumbs_open
                && p.overlay == w.chrome
            &&& !w.fullscreen ==> p.titlebar && p.statusbar && !p.overlay && p.tree_open
                == w.show_tree && p.thumbs_open == w.show_thumbs
            &&& p.help == w.help
        }),
{
}

/// A frame makes up for what changed since the last one, once: the colors are set when
/// the theme is another one, and the child window is made whole when the help is gone.
pub proof fn frames_catch_up(w: WindowView)
    ensures
        w.planned() == (WindowView {
            help_hole: w.planned().help_hole,
            visuals: Some(w.theme),
            ..w
        }),
        !w.planned().plan().set_visuals,
        !w.planned().plan().restore_child,
        w.plan().set_visuals <==> w.visuals != Some(w.theme),
        w.plan().restore_child <==> w.help_hole && !w.help,
        w.help ==> w.planned().help_hole == w.help_hole,
{
}

/// The controls of a full screen go two and a half seconds after the pointer's last move
/// unless it is over them. They do not change outside of a full screen.
pub proof fn controls_go(w: WindowView, hovering: bool, now: u64, later: u64)
    ensures
        !w.fullscreen ==> w.woken(now) == w && w.chrome_ticked(hovering, now) == w
            && !w.chrome_expires(hovering, now),
        w.fullscreen ==> w.woken(now) == (WindowView { chrome: true, chrome_at: Some(now), ..w }),
        w.fullscreen && now <= later ==> (w.woken(now).chrome_expires(false, later) <==> later
            >= now + 2500),
        w.fullscreen && w.chrome && hovering ==> w.chrome_ticked(true, now) == (WindowView {
            chrome_at: Some(now),
            ..w
        }),
        w.chrome_expires(hovering, now) <==> w.chrome && !w.chrome_ticked(hovering, now).chrome,
        w.chrome_expires(hovering, now) ==> w.chrome_ticked(hovering, now) == (WindowView {
            chrome: false,
            ..w
        }),
        w.fullscreen && !w.chrome ==> w.chrome_ticked(hovering, now) == w,
{
}

/// The edge under the pointer is noted and marked, unless one is dragged: that one stays
/// marked until it is let go. On a full screen none is noted.
pub proof fn edges_are_marked(w: WindowView, edge: Option<u8>, e: u8)
    ensures
        w.drag is None && !w.fullscreen ==> w.hovering(edge) == (WindowView { hover: edge, ..w })
            && w.hovering(edge).marked() == edge,
        w.drag is Some || w.fullscreen ==> w.hovering(edge) == w,
        w.drag == Some(e) ==> w.marked() == Some(e) && w.hovering(edge).marked() == Some(e),
        !w.fullscreen ==> w.moused(Button::Left, true, Some(e), true, 0).marked() == Some(e),
{
}

/// A double click shows an image that is fitted to the window in its own size, and fits
/// any other to the window.
pub proof fn double_click_switches(is_fit: bool)
    ensures
        ({
            let t = crate::window::zoom_switched(is_fit);
            &&& t.contains(EffectView::ActualSize) <==> is_fit
            &&& t.contains(EffectView::FitToScreen) <==> !is_fit
            &&& t.contains(EffectView::Redraw)
            &&& t.len() == 2
        }),
{
    let t = crate::window::zoom_switched(is_fit);
    assert(t[1] == EffectView::Redraw);
    assert(t.contains(t[0]));
}

/// The thumbnails are scrolled to the current image once: after they were drawn they stand
/// at its position.
pub proof fn thumbnails_follow(w: WindowView)
    requires
        w.valid(),
        w.nav.items.len() <= usize::MAX,
    ensures
        w.thumbs_shown() == (WindowView { last_thumb: w.thumbs_shown().last_thumb, ..w }),
        w.thumbs_shown().last_thumb == w.nav.index,
{
}

/// Actions for the lists change the lists alone, those for the window leave the lists as
/// they are, and all others leave the whole window as it is.
pub proof fn actions_change_what_they_are_for(w: WindowView, action: ActionView, now: u64)
    ensures
        ({
            let s = w.acted(action, now).state;
            &&& s.settings.favorites != w.settings.favorites || s.settings.recent
                != w.settings.recent ==> action is ToggleFavorite || action is AddFavorite
                || action is RemoveFavorite || action is RemoveRecent
            &&& s.settings.recent != w.settings.recent ==> action is RemoveRecent
            &&& s.settings.last_folder == w.settings.last_folder
            &&& s.settings.window_size == w.settings.window_size
            &&& s.nav.index != w.nav.index ==> action is Prev || action is Next
                || action is ThumbClicked
            &&& s.nav.items == w.nav.items && s.nav.folder == w.nav.folder
            &&& s.show_tree != w.show_tree ==> action is ToggleTree
            &&& s.show_thumbs != w.show_thumbs ==> action is ToggleThumbs
            &&& s.fullscreen != w.fullscreen ==> action is ToggleFullscreen
            &&& s.theme != w.theme ==> action is ToggleTheme
            &&& s.active_root != w.active_root ==> action is FolderChosen
            &&& s.queue == w.queue && s.arrows == w.arrows && s.drag == w.drag && s.panning
                == w.panning
            &&& action.only_asks() ==> s == w
        }),
{
}

/// To be located in the tree, a folder is scrolled to among the drives, with the folders
/// above it open; no other action changes what the tree remembers.
pub proof fn located_folders_are_shown(
    t: crate::file_tree::TreeView,
    action: ActionView,
    p: crate::path::PathView,
    a: Seq<crate::path::PartView>,
)
    requires
        t.valid(),
    ensures
        action !is RevealInTree ==> crate::window::tree_after(t, action) == t,
        crate::window::tree_after(t, ActionView::RevealInTree(p)).revealing == Some(p.parts()),
        crate::file_tree::is_ancestor(a, p.parts()) ==> crate::window::tree_after(
            t,
            ActionView::RevealInTree(p),
        ).expanded[2].contains(a),
{
}

} // verus!
