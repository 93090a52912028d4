//! How the main window answers to keys, the mouse, the clock and the frames.

use vstd::prelude::*;
use crate::actions::UiAction;
use crate::effect::{nothing, one, two, Effect, EffectView};
use crate::keys::{key_command, ArrowStep, Button, Key, KeyCommand};
use crate::nav::NavigationDirection;
use crate::path::FilePath;
use crate::viewer::SlideDir;
use crate::window::{
    FramePlan, MainWindow, MouseOutcome, WindowView, CHROME_HIDE_MILLIS, DOUBLE_CLICK_MILLIS,
};

verus! {

impl MainWindow {
    /// Lets an action wait for the end of the frame.
    pub fn queue_action(&mut self, action: UiAction)
        ensures
            final(self)@ == (WindowView { queue: old(self)@.queue.push(action@), ..old(self)@ }),
            old(self).wf() ==> final(self).wf(),
    {
        let ghost start = self@;
        let ghost av = action@;
        self.actions.push(action);
        assert(self@ =~= (WindowView { queue: start.queue.push(av), ..start }));
    }

    /// Gives the actions that wait, and forgets them.
    pub fn take_actions(&mut self) -> (r: Vec<UiAction>)
        ensures
            crate::sort::views(r@) == old(self)@.queue,
            final(self)@ == (WindowView { queue: Seq::empty(), ..old(self)@ }),
            old(self).wf() ==> final(self).wf(),
    {
        let ghost start = self@;
        let mut r: Vec<UiAction> = Vec::new();
        std::mem::swap(&mut r, &mut self.actions);
        assert(self@ =~= (WindowView { queue: Seq::empty(), ..start }));
        r
    }

    fn arrow(&mut self, key: Key, step: ArrowStep, now: u64) -> (r: Vec<Effect>)
        requires
            old(self).wf(),
        ensures
            final(self).wf(),
            final(self).outcome(r@) == old(self)@.commanded(key, KeyCommand::Arrow(step), now),
    {
        let ghost start = self@;
        let first = self.arrows.key_down(key, now);
        assert(self@ =~= (WindowView { arrows: start.arrows.pressed(key, now), ..start }));
        match first {
            Some(ArrowStep::Previous) => self.handle_navigation(
                NavigationDirection::Previous,
                SlideDir::Previous,
            ),
            Some(ArrowStep::Next) => self.handle_navigation(
                NavigationDirection::Next,
                SlideDir::Next,
            ),
            None => nothing(),
        }
    }

    fn command_queues(&mut self, key: Key, command: KeyCommand, now: u64) -> (r: Vec<Effect>)
        requires
            old(self).wf(),
            command is SetWallpaper || command is OpenInExplorer || command is ToggleFavorite
                || command is ToggleShortcutHelp,
        ensures
            final(self).wf(),
            final(self).outcome(r@) == old(self)@.commanded(key, command, now),
    {
        match command {
            KeyCommand::SetWallpaper => self.queue_action(UiAction::SetWallpaper),
            KeyCommand::OpenInExplorer => self.queue_action(UiAction::OpenInExplorer),
            KeyCommand::ToggleFavorite => self.queue_action(UiAction::ToggleFavorite),
            KeyCommand::ToggleShortcutHelp => self.queue_action(UiAction::ToggleShortcutHelp),
            _ => {},
        }
        nothing()
    }

    /// Carries out what a key asks for.
    fn command(&mut self, key: Key, command: KeyCommand, now: u64) -> (r: Vec<Effect>)
        requires
            old(self).wf(),
        ensures
            final(self).wf(),
            final(self).outcome(r@) == old(self)@.commanded(key, command, now),
    {
        match command {
            KeyCommand::CycleFolder(d) => one(Effect::CycleFolder(d)),
            KeyCommand::Arrow(step) => self.arrow(key, step, now),
            KeyCommand::Page(d) => self.handle_navigation_jump(d),
            KeyCommand::First => self.handle_navigation(
                NavigationDirection::First,
                SlideDir::NoSlide,
            ),
            KeyCommand::Last => self.handle_navigation(
                NavigationDirection::Last,
                SlideDir::NoSlide,
            ),
            KeyCommand::ToggleFullscreen => self.action_toggle_fullscreen(now),
            KeyCommand::Fit => two(Effect::FitToScreen, Effect::Redraw),
            KeyCommand::ZoomIn => two(Effect::ZoomIn, Effect::Redraw),
            KeyCommand::ZoomOut => two(Effect::ZoomOut, Effect::Redraw),
            KeyCommand::Quit => two(Effect::SaveGeometry, Effect::Exit),
            c => self.command_queues(key, c, now),
        }
    }

    /// Takes a key press; returns whether the key asked for anything, and what to do.
    /// Other keys go on to the user interface.
    pub fn key_pressed(&mut self, key: Key, ctrl: bool, now: u64) -> (r: (bool, Vec<Effect>))
        requires
            old(self).wf(),
        ensures
            final(self).wf(),
            r.0 == crate::keys::command_of(key, ctrl, old(self)@.fullscreen).is_some(),
            final(self).outcome(r.1@) == old(self)@.key_down(key, ctrl, now),
    {
        match key_command(key, ctrl, self.is_fullscreen) {
            Some(c) => {
                let todo = self.command(key, c, now);
                (true, todo)
            },
            None => (false, nothing()),
        }
    }

    /// Takes a key release: the walk of a held arrow key ends.
    pub fn key_released(&mut self, key: Key)
        ensures
            final(self)@ == (WindowView { arrows: old(self)@.arrows.let_go(key), ..old(self)@ }),
            old(self).wf() ==> final(self).wf(),
    {
        let ghost start = self@;
        self.arrows.key_up(key);
        assert(self@ =~= (WindowView { arrows: start.arrows.let_go(key), ..start }));
    }

    /// Lets a held arrow key take its step with a frame.
    pub fn frame_step(&mut self, now: u64) -> (r: Vec<Effect>)
        requires
            old(self).wf(),
        ensures
            final(self).wf(),
            final(self).outcome(r@) == old(self)@.frame_stepped(now),
    {
        let ghost start = self@;
        let step = self.arrows.frame(now);
        assert(self@ =~= (WindowView { arrows: start.arrows.framed(now), ..start }));
        match step {
            Some(ArrowStep::Previous) => self.handle_navigation(
                NavigationDirection::Previous,
                SlideDir::Previous,
            ),
            Some(ArrowStep::Next) => self.handle_navigation(
                NavigationDirection::Next,
                SlideDir::Next,
            ),
            None => nothing(),
        }
    }

    /// Brings the controls of a full screen back, the pointer having moved enough.
    pub fn wake_chrome(&mut self, now: u64)
        ensures
            final(self)@ == old(self)@.woken(now),
            old(self).wf() ==> final(self).wf(),
    {
        if self.is_fullscreen {
            self.chrome_visible = true;
            self.chrome_hide_at = Some(now);
        }
    }

    /// Hides the controls of a full screen when their time is over; returns whether
    /// it was. The pointer over the controls starts the time anew.
    pub fn tick_chrome(&mut self, hovering: bool, now: u64) -> (hidden: bool)
        ensures
            hidden == old(self)@.chrome_expires(hovering, now),
            final(self)@ == old(self)@.chrome_ticked(hovering, now),
            old(self).wf() ==> final(self).wf(),
    {
        if !self.is_fullscreen || !self.chrome_visible {
            return false;
        }
        if hovering {
            self.chrome_hide_at = Some(now);
            return false;
        }
        match self.chrome_hide_at {
            Some(t) => {
                if now >= t && now - t >= CHROME_HIDE_MILLIS {
                    self.chrome_visible = false;
                    true
                } else {
                    false
                }
            },
            None => false,
        }
    }

    /// Takes a mouse button. `edge` is the panel edge under the pointer, `in_viewer`
    /// tells whether the pointer is over the image.
    pub fn mouse_input(
        &mut self,
        button: Button,
        pressed: bool,
        edge: Option<u8>,
        in_viewer: bool,
        now: u64,
    ) -> (r: MouseOutcome)
        ensures
            r == old(self)@.mouse_outcome(button, pressed, edge, in_viewer, now),
            final(self)@ == old(self)@.moused(button, pressed, edge, in_viewer, now),
            old(self).wf() ==> final(self).wf(),
    {
        let ghost start = self@;
        if button == Button::Left {
            if !pressed {
                self.pan_active = false;
                let dragged: bool = self.drag_panel.is_some();
                self.drag_panel = None;
                if dragged {
                    return MouseOutcome::Consumed;
                }
            } else if !self.is_fullscreen && edge.is_some() {
                self.close_shortcut_help();
                self.drag_panel = edge;
                self.panel_edge_hover = edge;
                return MouseOutcome::Consumed;
            }
        }
        if !in_viewer {
            return MouseOutcome::Forward;
        }
        if button == Button::Right && pressed {
            return MouseOutcome::ShowImageMenu;
        }
        if button == Button::Left && pressed {
            self.pan_active = true;
            let double: bool = match self.last_click {
                Some(t) => now < t || now - t < DOUBLE_CLICK_MILLIS,
                None => false,
            };
            if double {
                self.last_click = None;
                return MouseOutcome::DoubleClick;
            }
            self.last_click = Some(now);
            return MouseOutcome::StartPan;
        }
        MouseOutcome::Consumed
    }

    /// What a double click on the image does: it changes between the fitted and the
    /// original size.
    pub fn double_clicked(&self, is_fit: bool) -> (r: Vec<Effect>)
        ensures
            crate::effect::effects(r@) == crate::window::zoom_switched(is_fit),
    {
        if is_fit {
            two(Effect::ActualSize, Effect::Redraw)
        } else {
            two(Effect::FitToScreen, Effect::Redraw)
        }
    }

    /// Notes the panel edge under the pointer; returns whether it changed. Nothing is
    /// noted while an edge is dragged, or on a full screen.
    pub fn hover_edge(&mut self, edge: Option<u8>) -> (changed: bool)
        ensures
            changed == (old(self)@.edges_free() && old(self)@.hover != edge),
            final(self)@ == old(self)@.hovering(edge),
            old(self).wf() ==> final(self).wf(),
    {
        if self.drag_panel.is_some() || self.is_fullscreen {
            return false;
        }
        let same: bool = match (self.panel_edge_hover, edge) {
            (Some(a), Some(b)) => a == b,
            (None, None) => true,
            _ => false,
        };
        self.panel_edge_hover = edge;
        !same
    }

    /// The panel edge to mark: the one dragged, or else the one under the pointer.
    pub fn marked_edge(&self) -> (r: Option<u8>)
        ensures
            r == self@.marked(),
    {
        if self.drag_panel.is_some() {
            self.drag_panel
        } else {
            self.panel_edge_hover
        }
    }

    /// Decides what a frame shows.
    pub fn plan_frame(&mut self) -> (r: FramePlan)
        ensures
            r == old(self)@.plan(),
            final(self)@ == old(self)@.planned(),
            old(self).wf() ==> final(self).wf(),
    {
        let set_visuals: bool = match self.applied_visuals {
            Some(t) => t != self.theme,
            None => true,
        };
        let plan = FramePlan {
            titlebar: !self.is_fullscreen,
            statusbar: !self.is_fullscreen,
            overlay: self.is_fullscreen && self.chrome_visible,
            tree_open: self.show_tree && !self.is_fullscreen,
            thumbs_open: self.show_thumbs && !self.is_fullscreen,
            help: self.show_shortcut_help,
            restore_child: self.help_child_hidden && !self.show_shortcut_help,
            set_visuals,
        };
        self.help_child_hidden = self.help_child_hidden && self.show_shortcut_help;
        self.applied_visuals = Some(self.theme);
        plan
    }

    /// Notes that the child window has a hole for the help.
    pub fn help_drawn(&mut self)
        ensures
            final(self)@ == (WindowView { help_hole: true, ..old(self)@ }),
            old(self).wf() ==> final(self).wf(),
    {
        self.help_child_hidden = true;
    }

    /// Notes that the thumbnails were drawn; returns whether they had to be scrolled,
    /// the current image being another one than before.
    pub fn thumbs_drawn(&mut self) -> (scrolled: bool)
        ensures
            scrolled == (old(self)@.nav.index != old(self)@.last_thumb),
            final(self)@ == old(self)@.thumbs_shown(),
            old(self).wf() ==> final(self).wf(),
    {
        let at: usize = self.nav.current_index();
        let scrolled: bool = at != self.last_thumb_idx;
        self.last_thumb_idx = at;
        scrolled
    }

    /// Sets the size of the viewer.
    pub fn set_viewport(&mut self, w: u32, h: u32)
        ensures
            final(self)@ == (WindowView { viewport: (w, h), ..old(self)@ }),
            old(self).wf() ==> final(self).wf(),
    {
        self.viewport_w = w;
        self.viewport_h = h;
    }

    /// The folder that the tree names: the one opened last, or the one of the start.
    pub fn shown_folder(&self) -> (r: Option<FilePath>)
        ensures
            crate::window::path_view(r) == self@.named_folder(),
    {
        match self.settings.last_folder() {
            Some(f) => Some(f),
            None => match &self.initial_folder {
                Some(f) => Some(f.clone()),
                None => None,
            },
        }
    }

    /// Notes the window's size for the next start.
    pub fn save_window_geometry(&mut self, w: u32, h: u32)
        ensures
            final(self)@.settings == (crate::settings::SettingsView {
                window_size: Some((w, h)),
                ..old(self)@.settings
            }),
            final(self)@ == (WindowView { settings: final(self)@.settings, ..old(self)@ }),
            old(self).wf() ==> final(self).wf(),
    {
        let ghost start = self@;
        self.settings.set_window_size(w, h);
        assert(self@ =~= (WindowView { settings: self@.settings, ..start }));
    }
}

} // verus!
