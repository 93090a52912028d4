//! The main window: what it shows, and how it answers to the user.

use vstd::prelude::*;
use crate::actions::{ActionView, UiAction, ROOT_FAVORITES, ROOT_RECENT, ROOT_THIS_PC};
use crate::effect::{and, nothing, one, two, Effect, EffectView};
use crate::file_tree::{FileTree, TreeView};
use crate::fs::{folder_has_images, Listing, ListingView, SupportedFormats};
use crate::keys::{ArrowHold, ArrowStep, Button, HoldView, Key, KeyCommand};
use crate::layout::{
    saturating_minus, thumbs_per_page, DEFAULT_H, DEFAULT_W, STATUS_BAR_HEIGHT, THUMB_WIDTH,
    TOOLBAR_HEIGHT, TREE_WIDTH,
};
use crate::model::ItemView;
use crate::nav::{NavView, NavigationDirection, NavigationService};
use crate::path::{FilePath, PathView};
use crate::settings::{
    SettingsStore, SettingsView, ThemeSetting, MAX_FAVORITES, MAX_RECENT,
};
use crate::sort::sort_stably;
use crate::viewer::SlideDir;

verus! {

/// How long the controls stay on a full screen without the pointer moving, in
/// milliseconds.
pub const CHROME_HIDE_MILLIS: u64 = 2500;

/// Two presses within this many milliseconds are a double click.
pub const DOUBLE_CLICK_MILLIS: u64 = 350;

/// What the program was started with.
#[derive(Debug)]
pub enum LaunchTarget {
    /// Nothing: the folder opened last.
    NoTarget,
    /// A folder of images.
    Folder(FilePath),
    /// A single image and its size.
    SingleImage { path: FilePath, width: u32, height: u32 },
}

/// The mathematical counterpart of [`LaunchTarget`].
pub enum LaunchView {
    NoTarget,
    Folder(PathView),
    SingleImage { path: PathView, width: u32, height: u32 },
}

impl View for LaunchTarget {
    type V = LaunchView;

    open spec fn view(&self) -> LaunchView {
        match self {
            LaunchTarget::NoTarget => LaunchView::NoTarget,
            LaunchTarget::Folder(p) => LaunchView::Folder(p@),
            LaunchTarget::SingleImage { path, width, height } => LaunchView::SingleImage {
                path: path@,
                width: *width,
                height: *height,
            },
        }
    }
}

/// What a press or release of a mouse button comes to.
#[derive(Debug, Clone, Copy, PartialEq, Eq, Structural)]
pub enum MouseOutcome {
    /// It is done with.
    Consumed,
    /// Show the image's menu.
    ShowImageMenu,
    /// The image follows the pointer from here on.
    StartPan,
    /// As before, and it was a double click.
    DoubleClick,
    /// It goes on to the user interface.
    Forward,
}

/// What a frame shows.
#[derive(Debug, Clone, Copy, PartialEq, Eq, Structural)]
pub struct FramePlan {
    pub titlebar: bool,
    pub statusbar: bool,
    /// The controls over a full screen are to be there.
    pub overlay: bool,
    pub tree_open: bool,
    pub thumbs_open: bool,
    pub help: bool,
    /// The help is gone, and the child window is to be whole again.
    pub restore_child: bool,
    /// The colors of the user interface are to be set.
    pub set_visuals: bool,
}

/// The window's state.
pub struct MainWindow {
    pub nav: NavigationService,
    pub settings: SettingsStore,
    pub actions: Vec<UiAction>,
    pub viewport_w: u32,
    pub viewport_h: u32,
    pub show_tree: bool,
    pub show_thumbs: bool,
    pub last_thumb_idx: usize,
    pub is_fullscreen: bool,
    pub initial_folder: Option<FilePath>,
    pub show_shortcut_help: bool,
    pub help_child_hidden: bool,
    pub chrome_visible: bool,
    pub chrome_hide_at: Option<u64>,
    pub applied_visuals: Option<ThemeSetting>,
    pub single_image_size: Option<(u32, u32)>,
    pub drag_panel: Option<u8>,
    pub panel_edge_hover: Option<u8>,
    pub pan_active: bool,
    pub theme: ThemeSetting,
    pub active_root: usize,
    pub last_click: Option<u64>,
    pub arrows: ArrowHold,
}

/// The mathematical counterpart of [`MainWindow`].
#[verifier::ext_equal]
pub struct WindowView {
    pub nav: NavView,
    pub settings: SettingsView,
    /// Actions that wait for the end of the frame.
    pub queue: Seq<ActionView>,
    pub viewport: (u32, u32),
    pub show_tree: bool,
    pub show_thumbs: bool,
    /// The image that the thumbnails were scrolled to last.
    pub last_thumb: usize,
    pub fullscreen: bool,
    pub initial_folder: Option<PathView>,
    /// The help is open.
    pub help: bool,
    /// The child window has a hole for the help.
    pub help_hole: bool,
    /// The controls on a full screen are there.
    pub chrome: bool,
    /// Since when the pointer has not moved.
    pub chrome_at: Option<u64>,
    pub visuals: Option<ThemeSetting>,
    pub single_image: Option<(u32, u32)>,
    /// The panel edge that is dragged.
    pub drag: Option<u8>,
    /// The panel edge under the pointer.
    pub hover: Option<u8>,
    /// The image follows the pointer.
    pub panning: bool,
    pub theme: ThemeSetting,
    /// The tree root that a folder was last chosen from.
    pub active_root: usize,
    /// When the image was last clicked.
    pub last_click: Option<u64>,
    pub arrows: HoldView,
}

/// An optional path.
pub open spec fn path_view(p: Option<FilePath>) -> Option<PathView> {
    match p {
        Some(f) => Some(f@),
        None => None,
    }
}

impl View for MainWindow {
    type V = WindowView;

    open spec fn view(&self) -> WindowView {
        WindowView {
            nav: self.nav@,
            settings: self.settings@,
            queue: crate::sort::views(self.actions@),
            viewport: (self.viewport_w, self.viewport_h),
            show_tree: self.show_tree,
            show_thumbs: self.show_thumbs,
            last_thumb: self.last_thumb_idx,
            fullscreen: self.is_fullscreen,
            initial_folder: path_view(self.initial_folder),
            help: self.show_shortcut_help,
            help_hole: self.help_child_hidden,
            chrome: self.chrome_visible,
            chrome_at: self.chrome_hide_at,
            visuals: self.applied_visuals,
            single_image: self.single_image_size,
            drag: self.drag_panel,
            hover: self.panel_edge_hover,
            panning: self.pan_active,
            theme: self.theme,
            active_root: self.active_root,
            last_click: self.last_click,
            arrows: self.arrows@,
        }
    }
}

/// A state and what is to be done.
#[verifier::ext_equal]
pub struct Outcome {
    pub state: WindowView,
    pub todo: Seq<EffectView>,
}

/// The tree shows the favorite and the recent folders of the settings.
pub open spec fn tree_shows(tree: FileTree, settings: SettingsView) -> bool {
    &&& tree.wf()
    &&& tree.roots@[ROOT_FAVORITES as int].children is Some
    &&& crate::file_tree::are_leaves(
        tree.roots@[ROOT_FAVORITES as int].children->0@,
        settings.favorites,
    )
    &&& tree.roots@[ROOT_RECENT as int].children is Some
    &&& crate::file_tree::are_leaves(
        tree.roots@[ROOT_RECENT as int].children->0@,
        settings.recent,
    )
}

/// An item is for a file.
pub open spec fn item_of(path: PathView) -> spec_fn(ItemView) -> bool {
    |it: ItemView| it.path.same(path)
}

/// A folder is this one.
pub open spec fn is_folder(folder: PathView) -> spec_fn(PathView) -> bool {
    |f: PathView| f.same(folder)
}

/// The navigation with the position on a file, where the folder has it.
pub open spec fn selected(nav: NavView, file: PathView) -> NavView {
    nav.jumped(crate::seqs::first_where(nav.items, item_of(file)))
}

/// The settings after a folder was opened: it is the last one, and among the recent
/// ones if it has images.
pub open spec fn noted(settings: SettingsView, folder: PathView, images: bool) -> SettingsView {
    SettingsView {
        last_folder: Some(folder),
        recent: if images {
            crate::settings::fronted(settings.recent, folder, MAX_RECENT as int)
        } else {
            settings.recent
        },
        ..settings
    }
}

/// The folder of a file; the file itself where it has none.
pub open spec fn folder_of(path: PathView) -> PathView {
    match crate::path::parent_of(path) {
        Some(p) => p,
        None => path,
    }
}

/// A folder beside the current one, and what a look at it found.
pub struct Sibling {
    pub path: FilePath,
    pub listing: Listing,
}

/// The mathematical counterpart of [`Sibling`].
pub struct SiblingView {
    pub path: PathView,
    pub listing: ListingView,
}

impl View for Sibling {
    type V = SiblingView;

    open spec fn view(&self) -> SiblingView {
        SiblingView { path: self.path@, listing: self.listing@ }
    }
}

/// The folders with images, in order.
pub open spec fn with_images(siblings: Seq<SiblingView>) -> Seq<PathView> {
    crate::sort::stable_sort::<FilePath>(
        siblings.filter(|s: SiblingView| crate::fs::has_images(s.listing)).map_values(
            |s: SiblingView| s.path,
        ),
    )
}

/// Another folder of a list: so many places on, round the ends. A folder that is not
/// on the list counts as its first.
pub open spec fn cycled(list: Seq<PathView>, folder: PathView, dir: int) -> PathView {
    let at = crate::seqs::first_where(list, is_folder(folder));
    let from = if at < list.len() {
        at
    } else {
        0
    };
    list[(from + dir) % list.len() as int]
}

impl WindowView {
    /// The position is that of an image wherever there is one.
    pub open spec fn valid(self) -> bool {
        self.nav.valid()
    }

    /// Nothing changes and nothing is to be done.
    pub open spec fn unchanged(self) -> Outcome {
        Outcome { state: self, todo: Seq::empty() }
    }

    /// The state, with something to be done.
    pub open spec fn doing(self, todo: Seq<EffectView>) -> Outcome {
        Outcome { state: self, todo }
    }

    /// A step among the images.
    pub open spec fn navigated(self, dir: NavigationDirection, slide: SlideDir) -> Outcome {
        WindowView { nav: self.nav.moved(dir), ..self }.doing(
            seq![EffectView::RequestCurrent(slide), EffectView::Redraw],
        )
    }

    /// A step of an arrow key.
    pub open spec fn stepped(self, step: ArrowStep) -> Outcome {
        match step {
            ArrowStep::Previous => self.navigated(
                NavigationDirection::Previous,
                SlideDir::Previous,
            ),
            ArrowStep::Next => self.navigated(NavigationDirection::Next, SlideDir::Next),
        }
    }

    /// The position that so many pages of thumbnails lead to.
    pub open spec fn page_target(self, delta: int) -> int {
        let to = self.nav.index + delta * crate::layout::page_size(self.viewport.1 as int);
        if to < 0 {
            0
        } else if to > self.nav.items.len() - 1 {
            self.nav.items.len() - 1
        } else {
            to
        }
    }

    /// A jump by pages of thumbnails.
    pub open spec fn paged(self, delta: int) -> Outcome {
        if self.nav.items.len() == 0 {
            self.unchanged()
        } else {
            self.navigated(
                NavigationDirection::Index(self.page_target(delta) as usize),
                SlideDir::NoSlide,
            )
        }
    }

    /// A folder was opened: it is noted, and its first image is asked for.
    pub open spec fn arrived(self, folder: PathView, listing: ListingView) -> Outcome {
        WindowView {
            nav: self.nav.opened(folder, listing),
            settings: noted(self.settings, folder, crate::fs::has_images(listing)),
            ..self
        }.doing(
            seq![
                EffectView::SaveSettings,
                EffectView::ClearCaches,
                EffectView::RequestCurrent(SlideDir::NoSlide),
                EffectView::Redraw,
            ],
        )
    }

    /// A folder is gone to. One without images leaves the image that is shown.
    pub open spec fn folder_entered(self, folder: PathView, listing: ListingView) -> Outcome {
        if crate::fs::has_images(listing) {
            self.arrived(folder, listing)
        } else {
            self.unchanged()
        }
    }

    /// The user chose a folder. One that cannot be read only leaves a note in the
    /// history.
    pub open spec fn folder_picked(self, folder: PathView, listing: ListingView) -> Outcome {
        if !self.nav.is_open(folder) && listing is Unreadable {
            WindowView { nav: self.nav.opened(folder, listing), ..self }.unchanged()
        } else {
            self.arrived(folder, listing)
        }
    }

    /// A file was dropped on the window.
    pub open spec fn dropped(self, path: PathView, is_dir: bool) -> Outcome {
        if is_dir {
            self.doing(seq![EffectView::OpenFolder(path)])
        } else if SupportedFormats::supports(path.parts()) && crate::path::has_parent(path.parts()) {
            WindowView { show_tree: true, show_thumbs: true, ..self }.doing(
                seq![EffectView::OpenFile { folder: path.up(), file: path }],
            )
        } else {
            self.unchanged()
        }
    }

    /// A dropped file's folder is gone to, and the file is selected.
    pub open spec fn file_opened(
        self,
        folder: PathView,
        file: PathView,
        listing: ListingView,
    ) -> Outcome {
        if !self.nav.is_open(folder) && listing is Unreadable {
            WindowView { nav: self.nav.opened(folder, listing), ..self }.unchanged()
        } else {
            let o = self.arrived(folder, listing);
            Outcome {
                state: WindowView { nav: selected(o.state.nav, file), ..o.state },
                ..o
            }
        }
    }

    /// The list of folders that is cycled through.
    pub open spec fn cycle_list(self, siblings: Seq<SiblingView>) -> Seq<PathView> {
        if self.active_root == ROOT_FAVORITES {
            self.settings.favorites
        } else if self.active_root == ROOT_RECENT {
            self.settings.recent
        } else {
            with_images(siblings)
        }
    }

    /// The folder whose subfolders the current one is cycled among.
    pub open spec fn scanned_parent(self) -> Option<PathView> {
        match self.nav.current() {
            Some(it) => if self.active_root == ROOT_FAVORITES || self.active_root == ROOT_RECENT {
                None
            } else {
                crate::path::parent_of(folder_of(it.path))
            },
            None => None,
        }
    }

    /// Another folder of the list is gone to.
    pub open spec fn folder_cycled(self, dir: int, siblings: Seq<SiblingView>) -> Outcome {
        let list = self.cycle_list(siblings);
        match self.nav.current() {
            Some(it) => if list.len() >= 2 {
                self.doing(
                    seq![EffectView::OpenFolder(cycled(list, folder_of(it.path), dir))],
                )
            } else {
                self.unchanged()
            },
            None => self.unchanged(),
        }
    }

    /// The fullscreen mode is changed. The help is closed, and the controls are shown.
    pub open spec fn fullscreen_toggled(self, now: u64) -> Outcome {
        let on = !self.fullscreen;
        WindowView {
            help: false,
            fullscreen: on,
            chrome: true,
            chrome_at: if on {
                Some(now)
            } else {
                None
            },
            ..self
        }.doing(
            if on {
                seq![
                    EffectView::MarkViewportTransition,
                    EffectView::ResetTravel,
                    EffectView::ThickFrame(false),
                    EffectView::SetFullscreen(true),
                ]
            } else {
                seq![
                    EffectView::MarkViewportTransition,
                    EffectView::ThickFrame(true),
                    EffectView::SetFullscreen(false),
                ]
            },
        )
    }

    /// The settings are changed and saved.
    pub open spec fn with_settings(self, settings: SettingsView) -> Outcome {
        WindowView { settings, ..self }.doing(seq![EffectView::SaveSettings])
    }

    /// An action is carried out.
    pub open spec fn acted(self, action: ActionView, now: u64) -> Outcome {
        let s = self.settings;
        match action {
            ActionView::OpenFolder => self.doing(
                seq![
                    EffectView::PickFolder(
                        match s.last_folder {
                            Some(f) => f,
                            None => PathView::drive_root("C:"@),
                        },
                    ),
                ],
            ),
            ActionView::Prev => self.stepped(ArrowStep::Previous),
            ActionView::Next => self.stepped(ArrowStep::Next),
            ActionView::Fit => self.doing(seq![EffectView::FitToScreen, EffectView::Redraw]),
            ActionView::OneToOne => self.doing(seq![EffectView::ActualSize, EffectView::Redraw]),
            ActionView::ToggleFullscreen => self.fullscreen_toggled(now),
            ActionView::ToggleTree => WindowView {
                help: false,
                show_tree: !self.show_tree,
                ..self
            }.doing(seq![EffectView::Relayout]),
            ActionView::ToggleThumbs => WindowView {
                help: false,
                show_thumbs: !self.show_thumbs,
                ..self
            }.doing(seq![EffectView::Relayout]),
            ActionView::ThumbClicked(i) => if i < self.nav.items.len() {
                WindowView { nav: self.nav.jumped(i as int), ..self }.doing(
                    seq![EffectView::RequestCurrent(SlideDir::NoSlide), EffectView::Redraw],
                )
            } else {
                self.unchanged()
            },
            ActionView::FolderChosen(p, root) => WindowView { active_root: root, ..self }.doing(
                seq![EffectView::OpenFolder(p)],
            ),
            ActionView::ToggleShortcutHelp => WindowView {
                help: !self.help,
                ..self
            }.unchanged(),
            ActionView::ToggleFavorite => match (self.nav.current(), self.nav.folder) {
                (Some(_), Some(f)) => self.with_settings(
                    SettingsView {
                        favorites: crate::settings::toggled(
                            s.favorites,
                            f,
                            MAX_FAVORITES as int,
                        ),
                        ..s
                    },
                ),
                _ => self.unchanged(),
            },
            ActionView::AddFavorite(p) => self.with_settings(
                SettingsView {
                    favorites: crate::settings::fronted(s.favorites, p, MAX_FAVORITES as int),
                    ..s
                },
            ),
            ActionView::RemoveFavorite(p) => self.with_settings(
                SettingsView { favorites: crate::settings::without(s.favorites, p), ..s },
            ),
            ActionView::RemoveRecent(p) => self.with_settings(
                SettingsView { recent: crate::settings::without(s.recent, p), ..s },
            ),
            ActionView::RevealInExplorer(p) => self.doing(seq![EffectView::RevealInExplorer(p)]),
            ActionView::BrowseFolder(p) => self.doing(seq![EffectView::OpenFolder(p)]),
            ActionView::RevealInTree(_) => self.unchanged(),
            ActionView::ExitApp => self.doing(seq![EffectView::SaveGeometry, EffectView::Exit]),
            ActionView::MinimizeWindow => self.doing(seq![EffectView::Minimize]),
            ActionView::ToggleMaximize => self.doing(seq![EffectView::ToggleMaximize]),
            ActionView::ToggleTheme => WindowView {
                theme: self.theme.other(),
                ..self
            }.with_settings(SettingsView { theme: Some(self.theme.other().word()), ..s }),
            ActionView::SetWallpaper => match self.nav.current() {
                Some(it) => self.doing(seq![EffectView::SetWallpaper(it.path)]),
                None => self.unchanged(),
            },
            ActionView::OpenInExplorer => match self.nav.current() {
                Some(it) => self.doing(seq![EffectView::RevealInExplorer(it.path)]),
                None => self.unchanged(),
            },
        }
    }

    /// An action waits for the end of the frame.
    pub open spec fn queued(self, action: ActionView) -> Outcome {
        WindowView { queue: self.queue.push(action), ..self }.unchanged()
    }

    /// What a key asks for is carried out.
    pub open spec fn commanded(self, key: Key, command: KeyCommand, now: u64) -> Outcome {
        match command {
            KeyCommand::CycleFolder(d) => self.doing(seq![EffectView::CycleFolder(d)]),
            KeyCommand::Arrow(_) => {
                let next = WindowView { arrows: self.arrows.pressed(key, now), ..self };
                match self.arrows.press_step(key) {
                    Some(step) => next.stepped(step),
                    None => next.unchanged(),
                }
            },
            KeyCommand::Page(d) => self.paged(d as int),
            KeyCommand::First => self.navigated(NavigationDirection::First, SlideDir::NoSlide),
            KeyCommand::Last => self.navigated(NavigationDirection::Last, SlideDir::NoSlide),
            KeyCommand::ToggleFullscreen => self.fullscreen_toggled(now),
            KeyCommand::Fit => self.doing(seq![EffectView::FitToScreen, EffectView::Redraw]),
            KeyCommand::ZoomIn => self.doing(seq![EffectView::ZoomIn, EffectView::Redraw]),
            KeyCommand::ZoomOut => self.doing(seq![EffectView::ZoomOut, EffectView::Redraw]),
            KeyCommand::Quit => self.doing(seq![EffectView::SaveGeometry, EffectView::Exit]),
            KeyCommand::SetWallpaper => self.queued(ActionView::SetWallpaper),
            KeyCommand::OpenInExplorer => self.queued(ActionView::OpenInExplorer),
            KeyCommand::ToggleFavorite => self.queued(ActionView::ToggleFavorite),
            KeyCommand::ToggleShortcutHelp => self.queued(ActionView::ToggleShortcutHelp),
        }
    }

    /// A key is pressed; one that asks for nothing changes nothing.
    pub open spec fn key_down(self, key: Key, ctrl: bool, now: u64) -> Outcome {
        match crate::keys::command_of(key, ctrl, self.fullscreen) {
            Some(c) => self.commanded(key, c, now),
            None => self.unchanged(),
        }
    }

    /// A frame lets a held arrow key step.
    pub open spec fn frame_stepped(self, now: u64) -> Outcome {
        let next = WindowView { arrows: self.arrows.framed(now), ..self };
        match self.arrows.frame_step(now) {
            Some(step) => next.stepped(step),
            None => next.unchanged(),
        }
    }

    /// The pointer moved enough for the controls to come back.
    pub open spec fn woken(self, now: u64) -> WindowView {
        if self.fullscreen {
            WindowView { chrome: true, chrome_at: Some(now), ..self }
        } else {
            self
        }
    }

    /// The controls are to be hidden: nothing happened for a while.
    pub open spec fn chrome_expires(self, hovering: bool, now: u64) -> bool {
        self.fullscreen && self.chrome && !hovering && (match self.chrome_at {
            Some(t) => now - t >= CHROME_HIDE_MILLIS,
            None => false,
        })
    }

    /// The controls after a frame. The pointer over them keeps them there.
    pub open spec fn chrome_ticked(self, hovering: bool, now: u64) -> WindowView {
        if self.fullscreen && self.chrome && hovering {
            WindowView { chrome_at: Some(now), ..self }
        } else if self.chrome_expires(hovering, now) {
            WindowView { chrome: false, ..self }
        } else {
            self
        }
    }

    /// A press of the left button over the image is the second of a double click.
    pub open spec fn is_double(self, now: u64) -> bool {
        match self.last_click {
            Some(t) => now - t < DOUBLE_CLICK_MILLIS,
            None => false,
        }
    }

    /// The panel edge that a press takes hold of.
    pub open spec fn grabs(self, button: Button, pressed: bool, edge: Option<u8>) -> bool {
        button == Button::Left && pressed && !self.fullscreen && edge is Some
    }

    /// What a mouse button comes to.
    pub open spec fn mouse_outcome(
        self,
        button: Button,
        pressed: bool,
        edge: Option<u8>,
        in_viewer: bool,
        now: u64,
    ) -> MouseOutcome {
        if button == Button::Left && !pressed && self.drag is Some {
            MouseOutcome::Consumed
        } else if self.grabs(button, pressed, edge) {
            MouseOutcome::Consumed
        } else if !in_viewer {
            MouseOutcome::Forward
        } else if button == Button::Right && pressed {
            MouseOutcome::ShowImageMenu
        } else if button == Button::Left && pressed {
            if self.is_double(now) {
                MouseOutcome::DoubleClick
            } else {
                MouseOutcome::StartPan
            }
        } else {
            MouseOutcome::Consumed
        }
    }

    /// The state after a mouse button. A release of the left button ends all dragging.
    pub open spec fn moused(
        self,
        button: Button,
        pressed: bool,
        edge: Option<u8>,
        in_viewer: bool,
        now: u64,
    ) -> WindowView {
        if button == Button::Left && !pressed {
            WindowView { panning: false, drag: None, ..self }
        } else if self.grabs(button, pressed, edge) {
            WindowView { help: false, drag: edge, hover: edge, ..self }
        } else if button == Button::Left && pressed && in_viewer {
            WindowView {
                panning: true,
                last_click: if self.is_double(now) {
                    None
                } else {
                    Some(now)
                },
                ..self
            }
        } else {
            self
        }
    }

    /// A panel edge can be taken note of: none is dragged, and there is no full screen.
    pub open spec fn edges_free(self) -> bool {
        self.drag is None && !self.fullscreen
    }

    /// The state with a panel edge under the pointer.
    pub open spec fn hovering(self, edge: Option<u8>) -> WindowView {
        if self.edges_free() {
            WindowView { hover: edge, ..self }
        } else {
            self
        }
    }

    /// The panel edge that is marked: the one dragged, or else the one under the pointer.
    pub open spec fn marked(self) -> Option<u8> {
        if self.drag is Some {
            self.drag
        } else {
            self.hover
        }
    }

    /// The state after the thumbnails were drawn.
    pub open spec fn thumbs_shown(self) -> WindowView {
        WindowView { last_thumb: self.nav.index as usize, ..self }
    }

    /// What a frame shows.
    pub open spec fn plan(self) -> FramePlan {
        FramePlan {
            titlebar: !self.fullscreen,
            statusbar: !self.fullscreen,
            overlay: self.fullscreen && self.chrome,
            tree_open: self.show_tree && !self.fullscreen,
            thumbs_open: self.show_thumbs && !self.fullscreen,
            help: self.help,
            restore_child: self.help_hole && !self.help,
            set_visuals: self.visuals != Some(self.theme),
        }
    }

    /// The state after a frame was planned.
    pub open spec fn planned(self) -> WindowView {
        WindowView {
            help_hole: self.help_hole && self.help,
            visuals: Some(self.theme),
            ..self
        }
    }

    /// The folder that the tree names: the last one, or the one of the start.
    pub open spec fn named_folder(self) -> Option<PathView> {
        match self.settings.last_folder {
            Some(f) => Some(f),
            None => self.initial_folder,
        }
    }
}

/// What the tree remembers after an action.
pub open spec fn tree_after(t: TreeView, action: ActionView) -> TreeView {
    match action {
        ActionView::RevealInTree(p) => t.revealed(p.parts()),
        _ => t,
    }
}

/// What a double click on the image asks for.
pub open spec fn zoom_switched(is_fit: bool) -> Seq<EffectView> {
    if is_fit {
        seq![EffectView::ActualSize, EffectView::Redraw]
    } else {
        seq![EffectView::FitToScreen, EffectView::Redraw]
    }
}

/// The folder to look at when the program starts.
pub open spec fn launch_folder_of(target: LaunchView, settings: SettingsView) -> Option<
    PathView,
> {
    match target {
        LaunchView::NoTarget => settings.last_folder,
        LaunchView::Folder(f) => Some(f),
        LaunchView::SingleImage { path, .. } => Some(
            match crate::path::parent_of(path) {
                Some(p) => p,
                None => PathView::current_dir(),
            },
        ),
    }
}

/// The window's state at the start, given what a look at that folder found. A single
/// image is shown without the panels; a last folder that is gone is not opened.
pub open spec fn launched(target: LaunchView, settings: SettingsView, listing: ListingView) -> WindowView {
    let size = match settings.window_size {
        Some(s) => s,
        None => (DEFAULT_W, DEFAULT_H),
    };
    let sized = SettingsView { window_size: Some(size), ..settings };
    let empty = NavView { folder: None, items: Seq::empty(), index: 0, history: Seq::empty() };
    let folder = launch_folder_of(target, settings);
    let images = crate::fs::has_images(listing);
    let opened = match folder {
        Some(f) => empty.opened(f, listing),
        None => empty,
    };
    let single = target is SingleImage;
    let gone = target is NoTarget && listing is NotADirectory;
    WindowView {
        nav: match target {
            LaunchView::NoTarget => if gone {
                empty
            } else {
                opened
            },
            LaunchView::Folder(_) => opened,
            LaunchView::SingleImage { path, .. } => selected(opened, path),
        },
        settings: match target {
            LaunchView::NoTarget => sized,
            _ => noted(sized, folder->0, images),
        },
        queue: Seq::empty(),
        viewport: (
            crate::layout::minus(size.0 as int, (TREE_WIDTH + THUMB_WIDTH) as int) as u32,
            crate::layout::minus(size.1 as int, (TOOLBAR_HEIGHT + STATUS_BAR_HEIGHT) as int) as u32,
        ),
        show_tree: !single,
        show_thumbs: !single,
        last_thumb: 0,
        fullscreen: false,
        initial_folder: if gone {
            None
        } else {
            folder
        },
        help: false,
        help_hole: false,
        chrome: true,
        chrome_at: None,
        visuals: None,
        single_image: match target {
            LaunchView::SingleImage { path, width, height } => Some((width, height)),
            _ => None,
        },
        drag: None,
        hover: None,
        panning: false,
        theme: crate::settings::theme_of(settings.theme),
        active_root: ROOT_THIS_PC,
        last_click: None,
        arrows: HoldView::idle(),
    }
}

/// Copies an optional path.
fn copy_path(p: Option<&FilePath>) -> (r: Option<FilePath>)
    ensures
        r.is_some() == p.is_some(),
        r matches Some(f) ==> f@ == p->0@,
{
    match p {
        Some(f) => Some(f.clone()),
        None => None,
    }
}

/// Gives the folder to look at when the program starts.
pub fn launch_folder(target: &LaunchTarget, settings: &SettingsStore) -> (r: Option<FilePath>)
    ensures
        path_view(r) == launch_folder_of(target@, settings@),
{
    match target {
        LaunchTarget::NoTarget => settings.last_folder(),
        LaunchTarget::Folder(f) => Some(f.clone()),
        LaunchTarget::SingleImage { path, width: _, height: _ } => match path.parent() {
            Some(p) => Some(p),
            None => Some(FilePath::current_dir()),
        },
    }
}

fn select_file(nav: &mut NavigationService, file: &FilePath)
    requires
        old(nav).wf(),
    ensures
        final(nav).wf(),
        final(nav)@ == selected(old(nav)@, file@),
{
    let ghost f = item_of(file@);
    let count: usize = nav.count();
    let mut i: usize = 0;
    while i < count
        invariant
            nav.wf(),
            nav@ == old(nav)@,
            f == item_of(file@),
            count == nav@.items.len(),
            i <= count,
            forall|j: int| 0 <= j < i ==> !f(#[trigger] nav@.items[j]),
        decreases count - i,
    {
        let items = nav.items();
        assert(nav@.items[i as int] == items@[i as int]@);
        if items[i].path.same(file) {
            proof {
                crate::seqs::first_where_unique(nav@.items, f, i as int);
            }
            let chosen = nav.set_index(i);
            return ;
        }
        i += 1;
    }
    proof {
        crate::seqs::first_where_unique(nav@.items, f, i as int);
    }
}

fn note_folder(
    settings: &mut SettingsStore,
    tree: &mut FileTree,
    folder: FilePath,
    images: bool,
)
    requires
        tree_shows(*old(tree), old(settings)@),
    ensures
        final(settings)@ == noted(old(settings)@, folder@, images),
        tree_shows(*final(tree), final(settings)@),
        final(tree)@ == old(tree)@,
        final(tree).roots@[2] == old(tree).roots@[2],
{
    let ghost start = settings@;
    let ghost fv = folder@;
    if images {
        settings.push_recent_folder(folder.clone());
    }
    settings.set_last_folder(folder);
    assert(settings@ =~= noted(start, fv, images));
    let recent = settings.recent_folders();
    tree.refresh_recent(&recent);
    let favorites = settings.favorite_folders();
    tree.refresh_favorites(&favorites);
}

fn folders_with_images(siblings: Vec<Sibling>) -> (r: Vec<FilePath>)
    ensures
        crate::sort::views(r@) == with_images(crate::sort::views(siblings@)),
{
    let ghost all = crate::sort::views(siblings@);
    let ghost f = |s: SiblingView| crate::fs::has_images(s.listing);
    let ghost g = |s: SiblingView| s.path;
    let mut out: Vec<FilePath> = Vec::new();
    assert(crate::sort::views(out@) =~= all.take(0).filter(f).map_values(g)) by {
        reveal(Seq::filter);
    }
    for s in it: siblings
        invariant
            all == crate::sort::views(it.seq()),
            f == (|s: SiblingView| crate::fs::has_images(s.listing)),
            g == (|s: SiblingView| s.path),
            crate::sort::views(out@) == all.take(it.index()).filter(f).map_values(g),
    {
        let ghost i = it.index();
        let ghost before = out@;
        let ghost sv = s@;
        assert(all[i] == sv);
        assert(all.take(i + 1).drop_last() =~= all.take(i));
        reveal(Seq::filter);
        if folder_has_images(&s.listing) {
            let ghost pv = s.path@;
            out.push(s.path);
            assert(crate::sort::views(out@) =~= crate::sort::views(before).push(pv));
            assert(all.take(i + 1).filter(f).map_values(g) =~= all.take(i).filter(f).map_values(
                g,
            ).push(g(sv)));
        }
    }
    assert(all.take(all.len() as int) =~= all);
    sort_stably(out)
}

fn folder_position(list: &Vec<FilePath>, folder: &FilePath) -> (r: usize)
    ensures
        r == crate::seqs::first_where(crate::sort::views(list@), is_folder(folder@)),
{
    let ghost v = crate::sort::views(list@);
    let ghost f = is_folder(folder@);
    let mut at: usize = 0;
    while at < list.len()
        invariant
            v == crate::sort::views(list@),
            f == is_folder(folder@),
            at <= list.len(),
            forall|j: int| 0 <= j < at ==> !f(#[trigger] v[j]),
        decreases list.len() - at,
    {
        assert(v[at as int] == list@[at as int]@);
        if list[at].same(folder) {
            proof {
                crate::seqs::first_where_unique(v, f, at as int);
            }
            return at;
        }
        at += 1;
    }
    proof {
        crate::seqs::first_where_unique(v, f, at as int);
    }
    at
}

fn cycle_in(list: &Vec<FilePath>, folder: &FilePath, dir: i32) -> (r: FilePath)
    requires
        list.len() > 0,
    ensures
        r@ == cycled(crate::sort::views(list@), folder@, dir as int),
{
    let ghost v = crate::sort::views(list@);
    let len: usize = list.len();
    let at: usize = folder_position(list, folder);
    let from: usize = if at < len {
        at
    } else {
        0
    };
    let n: u64 = len as u64;
    let step: u64 = if dir >= 0 {
        (dir as u64) % n
    } else {
        (n - ((-(dir as i64)) as u64) % n) % n
    };
    let room: u64 = n - step;
    let next: u64 = if (from as u64) < room {
        from as u64 + step
    } else {
        from as u64 - room
    };
    proof {
        wrapped_sum(from as int, dir as int, n as int, step as int, next as int);
    }
    assert(v[next as int] == list@[next as int]@);
    list[next as usize].clone()
}

proof fn wrapped_sum(from: int, dir: int, n: int, step: int, next: int)
    requires
        0 <= from < n,
        step == if dir >= 0 {
            dir % n
        } else {
            (n - (-dir) % n) % n
        },
        next == if from < n - step {
            from + step
        } else {
            from - (n - step)
        },
    ensures
        0 <= next < n,
        next == (from + dir) % n,
{
    assert(0 <= step < n && step == dir % n) by {
        if dir < 0 {
            let m = (-dir) % n;
            vstd::arithmetic::div_mod::lemma_fundamental_div_mod(-dir, n);
            let q = (-dir) / n;
            assert(-dir == n * q + m);
            if m == 0 {
                assert((n - 0) % n == 0) by (nonlinear_arith)
                    requires
                        n > 0,
                ;
                assert(dir == (-q) * n + 0) by (nonlinear_arith)
                    requires
                        -dir == n * q + 0,
                ;
                vstd::arithmetic::div_mod::lemma_fundamental_div_mod_converse(dir, n, -q, 0);
            } else {
                assert((n - m) % n == n - m) by (nonlinear_arith)
                    requires
                        0 < n - m < n,
                ;
                assert(dir == (-q - 1) * n + (n - m)) by (nonlinear_arith)
                    requires
                        -dir == n * q + m,
                ;
                vstd::arithmetic::div_mod::lemma_fundamental_div_mod_converse(
                    dir,
                    n,
                    -q - 1,
                    n - m,
                );
            }
        }
    }
    let q = dir / n;
    vstd::arithmetic::div_mod::lemma_fundamental_div_mod(dir, n);
    if from < n - step {
        assert(from + dir == q * n + (from + step)) by (nonlinear_arith)
            requires
                dir == n * q + step,
        ;
        vstd::arithmetic::div_mod::lemma_fundamental_div_mod_converse(from + dir, n, q, from + step);
    } else {
        assert(from + dir == (q + 1) * n + (from + step - n)) by (nonlinear_arith)
            requires
                dir == n * q + step,
        ;
        vstd::arithmetic::div_mod::lemma_fundamental_div_mod_converse(
            from + dir,
            n,
            q + 1,
            from + step - n,
        );
    }
}

impl MainWindow {
    /// The position is that of an image wherever there is one.
    pub open spec fn wf(&self) -> bool {
        self.nav.wf()
    }

    /// The state with what is to be done.
    pub open spec fn outcome(&self, todo: Seq<Effect>) -> Outcome {
        Outcome { state: self@, todo: crate::effect::effects(todo) }
    }

    /// The window at the start, given what a look at the folder of [`launch_folder`]
    /// found; without such a folder, that there is none.
    pub fn new(
        target: LaunchTarget,
        settings: SettingsStore,
        listing: Listing,
        tree: &mut FileTree,
    ) -> (r: Self)
        requires
            old(tree).wf(),
            launch_folder_of(target@, settings@) is None ==> listing@ is NotADirectory,
        ensures
            r.wf(),
            r@ == launched(target@, settings@, listing@),
            tree_shows(*final(tree), r@.settings),
            final(tree)@ == old(tree)@,
            final(tree).roots@[2] == old(tree).roots@[2],
    {
        let ghost tv = target@;
        let ghost sv = settings@;
        let ghost lv = listing@;
        let folder = launch_folder(&target, &settings);
        let mut settings = settings;
        let size: (u32, u32) = match settings.window_size() {
            Some(s) => s,
            None => {
                settings.set_window_size(DEFAULT_W, DEFAULT_H);
                (DEFAULT_W, DEFAULT_H)
            },
        };
        let theme: ThemeSetting = settings.theme();
        assert(settings@ =~= (SettingsView { window_size: Some(size), ..sv }));
        let recent = settings.recent_folders();
        tree.refresh_recent(&recent);
        let favorites = settings.favorite_folders();
        tree.refresh_favorites(&favorites);
        let images: bool = folder_has_images(&listing);
        let is_dir: bool = match &listing {
            Listing::NotADirectory => false,
            _ => true,
        };
        let mut nav = NavigationService::new();
        let mut show: bool = true;
        let mut single: Option<(u32, u32)> = None;
        let mut initial: Option<FilePath> = None;
        match target {
            LaunchTarget::NoTarget => match folder {
                Some(f) => if is_dir {
                    initial = Some(f.clone());
                    let opened = nav.navigate_folder(f, listing);
                },
                None => {},
            },
            LaunchTarget::Folder(_) => match folder {
                Some(f) => {
                    initial = Some(f.clone());
                    let opened = nav.navigate_folder(f.clone(), listing);
                    note_folder(&mut settings, tree, f, images);
                },
                None => {},
            },
            LaunchTarget::SingleImage { path, width, height } => match folder {
                Some(f) => {
                    show = false;
                    single = Some((width, height));
                    initial = Some(f.clone());
                    let opened = nav.navigate_folder(f.clone(), listing);
                    select_file(&mut nav, &path);
                    note_folder(&mut settings, tree, f, images);
                },
                None => {},
            },
        }
        let r = MainWindow {
            nav,
            settings,
            actions: Vec::new(),
            viewport_w: saturating_minus(size.0, (TREE_WIDTH + THUMB_WIDTH) as u64),
            viewport_h: saturating_minus(size.1, (TOOLBAR_HEIGHT + STATUS_BAR_HEIGHT) as u64),
            show_tree: show,
            show_thumbs: show,
            last_thumb_idx: 0,
            is_fullscreen: false,
            initial_folder: initial,
            show_shortcut_help: false,
            help_child_hidden: false,
            chrome_visible: true,
            chrome_hide_at: None,
            applied_visuals: None,
            single_image_size: single,
            drag_panel: None,
            panel_edge_hover: None,
            pan_active: false,
            theme,
            active_root: ROOT_THIS_PC,
            last_click: None,
            arrows: ArrowHold::new(),
        };
        assert(r@ =~= launched(tv, sv, lv));
        r
    }

    /// Takes a step among the images.
    pub fn handle_navigation(&mut self, dir: NavigationDirection, slide: SlideDir) -> (r: Vec<Effect>)
        requires
            old(self).wf(),
        ensures
            final(self).wf(),
            final(self).outcome(r@) == old(self)@.navigated(dir, slide),
    {
        let ghost start = self@;
        let moved = self.nav.move_to(dir);
        assert(self@ =~= (WindowView { nav: start.nav.moved(dir), ..start }));
        two(Effect::RequestCurrent(slide), Effect::Redraw)
    }

    fn step(&mut self, step: ArrowStep) -> (r: Vec<Effect>)
        requires
            old(self).wf(),
        ensures
            final(self).wf(),
            final(self).outcome(r@) == old(self)@.stepped(step),
    {
        match step {
            ArrowStep::Previous => self.handle_navigation(
                NavigationDirection::Previous,
                SlideDir::Previous,
            ),
            ArrowStep::Next => self.handle_navigation(NavigationDirection::Next, SlideDir::Next),
        }
    }

    /// Jumps by pages of thumbnails.
    pub fn handle_navigation_jump(&mut self, delta: i32) -> (r: Vec<Effect>)
        requires
            old(self).wf(),
        ensures
            final(self).wf(),
            final(self).outcome(r@) == old(self)@.paged(delta as int),
    {
        let len: usize = self.nav.count();
        if len == 0 {
            return nothing();
        }
        proof {
            self.nav.wf_is_valid();
        }
        let page: usize = thumbs_per_page(self.viewport_h);
        let index: usize = self.nav.current_index();
        assert(-214748364800 <= delta * page <= 214748364800) by (nonlinear_arith)
            requires
                -2147483648 <= delta <= 2147483647,
                1 <= page <= 100,
        ;
        let by: i128 = delta as i128 * page as i128;
        let to: i128 = index as i128 + by;
        let target: usize = if to < 0 {
            0
        } else if to > len as i128 - 1 {
            len - 1
        } else {
            to as usize
        };
        self.handle_navigation(NavigationDirection::Index(target), SlideDir::NoSlide)
    }

    fn arrive(&mut self, tree: &mut FileTree, folder: FilePath, images: bool) -> (r: Vec<Effect>)
        requires
            old(self).wf(),
            tree_shows(*old(tree), old(self)@.settings),
        ensures
            final(self).wf(),
            final(self)@ == (WindowView {
                settings: noted(old(self)@.settings, folder@, images),
                ..old(self)@
            }),
            crate::effect::effects(r@) == seq![
                EffectView::SaveSettings,
                EffectView::ClearCaches,
                EffectView::RequestCurrent(SlideDir::NoSlide),
                EffectView::Redraw,
            ],
            tree_shows(*final(tree), final(self)@.settings),
            final(tree)@ == old(tree)@,
            final(tree).roots@[2] == old(tree).roots@[2],
    {
        let ghost start = self@;
        let ghost fv = folder@;
        note_folder(&mut self.settings, tree, folder, images);
        assert(self@ =~= (WindowView { settings: noted(start.settings, fv, images), ..start }));
        let r = and(
            and(
                two(Effect::SaveSettings, Effect::ClearCaches),
                Effect::RequestCurrent(SlideDir::NoSlide),
            ),
            Effect::Redraw,
        );
        assert(crate::effect::effects(r@) =~= seq![
            EffectView::SaveSettings,
            EffectView::ClearCaches,
            EffectView::RequestCurrent(SlideDir::NoSlide),
            EffectView::Redraw,
        ]);
        r
    }

    /// Goes to a folder, given what a look at it found. A folder without images
    /// leaves everything as it is.
    pub fn navigate_to_folder(&mut self, tree: &mut FileTree, path: FilePath, listing: Listing) -> (r:
        Vec<Effect>)
        requires
            old(self).wf(),
            tree_shows(*old(tree), old(self)@.settings),
        ensures
            final(self).wf(),
            final(self).outcome(r@) == old(self)@.folder_entered(path@, listing@),
            tree_shows(*final(tree), final(self)@.settings),
            final(tree)@ == old(tree)@,
            final(tree).roots@[2] == old(tree).roots@[2],
    {
        let ghost start = self@;
        let ghost pv = path@;
        let ghost lv = listing@;
        if !folder_has_images(&listing) {
            return nothing();
        }
        let opened = self.nav.navigate_folder(path.clone(), listing);
        assert(self@ =~= (WindowView { nav: start.nav.opened(pv, lv), ..start }));
        let r = self.arrive(tree, path, true);
        assert(self.outcome(r@) =~= start.arrived(pv, lv));
        r
    }

    /// Goes to a folder that the user chose, given what a look at it found.
    pub fn folder_picked(&mut self, tree: &mut FileTree, path: FilePath, listing: Listing) -> (r: Vec<
        Effect,
    >)
        requires
            old(self).wf(),
            tree_shows(*old(tree), old(self)@.settings),
        ensures
            final(self).wf(),
            final(self).outcome(r@) == old(self)@.folder_picked(path@, listing@),
            tree_shows(*final(tree), final(self)@.settings),
            final(tree)@ == old(tree)@,
            final(tree).roots@[2] == old(tree).roots@[2],
    {
        let ghost start = self@;
        let ghost pv = path@;
        let ghost lv = listing@;
        let images: bool = folder_has_images(&listing);
        match self.nav.navigate_folder(path.clone(), listing) {
            Err(_) => {
                assert(self@ =~= (WindowView { nav: start.nav.opened(pv, lv), ..start }));
                nothing()
            },
            Ok(_) => {
                assert(self@ =~= (WindowView { nav: start.nav.opened(pv, lv), ..start }));
                let r = self.arrive(tree, path, images);
                assert(self.outcome(r@) =~= start.arrived(pv, lv));
                r
            },
        }
    }

    /// Takes a file or folder that was dropped on the window.
    pub fn handle_dropped_file(&mut self, path: FilePath, is_dir: bool) -> (r: Vec<Effect>)
        requires
            old(self).wf(),
        ensures
            final(self).wf(),
            final(self).outcome(r@) == old(self)@.dropped(path@, is_dir),
    {
        let ghost start = self@;
        if is_dir {
            return one(Effect::OpenFolder(path));
        }
        if !SupportedFormats::is_supported(&path) {
            return nothing();
        }
        match path.parent() {
            None => nothing(),
            Some(folder) => {
                self.show_tree = true;
                self.show_thumbs = true;
                one(Effect::OpenFile { folder, file: path })
            },
        }
    }

    /// Goes to a dropped file's folder, given what a look at it found, and selects the
    /// file.
    pub fn open_dropped(
        &mut self,
        tree: &mut FileTree,
        folder: FilePath,
        file: &FilePath,
        listing: Listing,
    ) -> (r: Vec<Effect>)
        requires
            old(self).wf(),
            tree_shows(*old(tree), old(self)@.settings),
        ensures
            final(self).wf(),
            final(self).outcome(r@) == old(self)@.file_opened(folder@, file@, listing@),
            tree_shows(*final(tree), final(self)@.settings),
            final(tree)@ == old(tree)@,
            final(tree).roots@[2] == old(tree).roots@[2],
    {
        let ghost start = self@;
        let ghost pv = folder@;
        let ghost lv = listing@;
        let images: bool = folder_has_images(&listing);
        match self.nav.navigate_folder(folder.clone(), listing) {
            Err(_) => {
                assert(self@ =~= (WindowView { nav: start.nav.opened(pv, lv), ..start }));
                nothing()
            },
            Ok(_) => {
                select_file(&mut self.nav, file);
                assert(self@ =~= (WindowView {
                    nav: selected(start.nav.opened(pv, lv), file@),
                    ..start
                }));
                let r = self.arrive(tree, folder, images);
                assert(self.outcome(r@) =~= start.file_opened(pv, file@, lv));
                r
            },
        }
    }

    /// The folder whose subfolders the current one is cycled among, where that is
    /// not a list of the settings: the parent of the current image's folder.
    pub fn cycle_parent(&self) -> (r: Option<FilePath>)
        requires
            self.wf(),
        ensures
            path_view(r) == self@.scanned_parent(),
    {
        if self.active_root == ROOT_FAVORITES || self.active_root == ROOT_RECENT {
            return None;
        }
        match self.nav.current() {
            Some(it) => {
                let folder = match it.path.parent() {
                    Some(p) => p,
                    None => it.path.clone(),
                };
                folder.parent()
            },
            None => None,
        }
    }

    /// Goes to another folder of the list that the last folder was chosen from.
    /// `siblings` are the folders beside the current one.
    pub fn handle_cycle_folder(&mut self, dir: i32, siblings: Vec<Sibling>) -> (r: Vec<Effect>)
        requires
            old(self).wf(),
        ensures
            final(self).wf(),
            final(self).outcome(r@) == old(self)@.folder_cycled(
                dir as int,
                crate::sort::views(siblings@),
            ),
    {
        let folder = match self.nav.current() {
            Some(it) => match it.path.parent() {
                Some(p) => p,
                None => it.path.clone(),
            },
            None => {
                return nothing();
            },
        };
        let list: Vec<FilePath> = if self.active_root == ROOT_FAVORITES {
            self.settings.favorite_folders()
        } else if self.active_root == ROOT_RECENT {
            self.settings.recent_folders()
        } else {
            folders_with_images(siblings)
        };
        if list.len() < 2 {
            return nothing();
        }
        one(Effect::OpenFolder(cycle_in(&list, &folder, dir)))
    }

    /// Closes the help.
    pub fn close_shortcut_help(&mut self)
        ensures
            final(self)@ == (WindowView { help: false, ..old(self)@ }),
            old(self).wf() ==> final(self).wf(),
    {
        self.show_shortcut_help = false;
    }

    /// Changes the fullscreen mode.
    pub fn action_toggle_fullscreen(&mut self, now: u64) -> (r: Vec<Effect>)
        requires
            old(self).wf(),
        ensures
            final(self).wf(),
            final(self).outcome(r@) == old(self)@.fullscreen_toggled(now),
    {
        let ghost start = self@;
        self.close_shortcut_help();
        self.is_fullscreen = !self.is_fullscreen;
        self.chrome_visible = true;
        let first = if self.is_fullscreen {
            self.chrome_hide_at = Some(now);
            two(Effect::MarkViewportTransition, Effect::ResetTravel)
        } else {
            self.chrome_hide_at = None;
            one(Effect::MarkViewportTransition)
        };
        let r = and(
            and(first, Effect::ThickFrame(!self.is_fullscreen)),
            Effect::SetFullscreen(self.is_fullscreen),
        );
        assert(crate::effect::effects(r@) =~= start.fullscreen_toggled(now).todo);
        assert(self@ =~= start.fullscreen_toggled(now).state);
        r
    }

    fn show_favorites(&self, tree: &mut FileTree)
        requires
            old(tree).wf(),
            old(tree).roots@[1].children is Some,
            crate::file_tree::are_leaves(old(tree).roots@[1].children->0@, self@.settings.recent),
        ensures
            tree_shows(*final(tree), self@.settings),
            final(tree)@ == old(tree)@,
            final(tree).roots@[2] == old(tree).roots@[2],
    {
        let favorites = self.settings.favorite_folders();
        tree.refresh_favorites(&favorites);
    }

    fn act_on_lists(&mut self, tree: &mut FileTree, action: UiAction, now: u64) -> (r: Vec<Effect>)
        requires
            old(self).wf(),
            tree_shows(*old(tree), old(self)@.settings),
            action@.changes_lists(),
        ensures
            final(self).wf(),
            final(self).outcome(r@) == old(self)@.acted(action@, now),
            tree_shows(*final(tree), final(self)@.settings),
            final(tree)@ == old(tree)@,
            final(tree).roots@[2] == old(tree).roots@[2],
    {
        let ghost start = self@;
        let ghost av = action@;
        match action {
            UiAction::ToggleFavorite => {
                if self.nav.current().is_none() {
                    return nothing();
                }
                match copy_path(self.nav.folder()) {
                    Some(f) => {
                        self.settings.toggle_favorite_folder(f);
                        assert(self@ =~= start.acted(av, now).state);
                        self.show_favorites(tree);
                    },
                    None => {
                        return nothing();
                    },
                }
            },
            UiAction::AddFavorite(p) => {
                self.settings.add_favorite_folder(p);
                assert(self@ =~= start.acted(av, now).state);
                self.show_favorites(tree);
            },
            UiAction::RemoveFavorite(p) => {
                self.settings.remove_favorite_folder(&p);
                assert(self@ =~= start.acted(av, now).state);
                self.show_favorites(tree);
            },
            UiAction::RemoveRecent(p) => {
                self.settings.remove_recent_folder(&p);
                assert(self@ =~= start.acted(av, now).state);
                let recent = self.settings.recent_folders();
                tree.refresh_recent(&recent);
            },
            _ => {},
        }
        one(Effect::SaveSettings)
    }

    fn ask(&self, action: &UiAction, now: u64) -> (r: Vec<Effect>)
        requires
            self.wf(),
            action@.only_asks(),
        ensures
            self.outcome(r@) == self@.acted(action@, now),
    {
        match action {
            UiAction::OpenFolder => {
                let from = match self.settings.last_folder() {
                    Some(f) => f,
                    None => FilePath::drive_root("C:".to_owned()),
                };
                one(Effect::PickFolder(from))
            },
            UiAction::Fit => two(Effect::FitToScreen, Effect::Redraw),
            UiAction::OneToOne => two(Effect::ActualSize, Effect::Redraw),
            UiAction::RevealInExplorer(p) => one(Effect::RevealInExplorer(p.clone())),
            UiAction::BrowseFolder(p) => one(Effect::OpenFolder(p.clone())),
            UiAction::ExitApp => two(Effect::SaveGeometry, Effect::Exit),
            UiAction::MinimizeWindow => one(Effect::Minimize),
            UiAction::ToggleMaximize => one(Effect::ToggleMaximize),
            UiAction::SetWallpaper => match self.nav.current() {
                Some(it) => one(Effect::SetWallpaper(it.path.clone())),
                None => nothing(),
            },
            UiAction::OpenInExplorer => match self.nav.current() {
                Some(it) => one(Effect::RevealInExplorer(it.path.clone())),
                None => nothing(),
            },
            _ => nothing(),
        }
    }

    #[verifier::rlimit(40)]
    fn change(&mut self, action: UiAction, now: u64) -> (r: Vec<Effect>)
        requires
            old(self).wf(),
            action@.changes_window(),
        ensures
            final(self).wf(),
            final(self).outcome(r@) == old(self)@.acted(action@, now),
            final(self)@.settings.favorites == old(self)@.settings.favorites,
            final(self)@.settings.recent == old(self)@.settings.recent,
    {
        let ghost start = self@;
        let ghost av = action@;
        match action {
            UiAction::Prev => self.step(ArrowStep::Previous),
            UiAction::Next => self.step(ArrowStep::Next),
            UiAction::ToggleFullscreen => self.action_toggle_fullscreen(now),
            UiAction::ToggleTree => {
                self.close_shortcut_help();
                self.show_tree = !self.show_tree;
                assert(self@ =~= start.acted(av, now).state);
                one(Effect::Relayout)
            },
            UiAction::ToggleThumbs => {
                self.close_shortcut_help();
                self.show_thumbs = !self.show_thumbs;
                assert(self@ =~= start.acted(av, now).state);
                one(Effect::Relayout)
            },
            UiAction::ThumbClicked(i) => {
                if i < self.nav.count() {
                    let chosen = self.nav.set_index(i);
                    assert(self@ =~= start.acted(av, now).state);
                    two(Effect::RequestCurrent(SlideDir::NoSlide), Effect::Redraw)
                } else {
                    nothing()
                }
            },
            UiAction::FolderChosen(p, root) => {
                self.active_root = root;
                assert(self@ =~= start.acted(av, now).state);
                one(Effect::OpenFolder(p))
            },
            UiAction::ToggleShortcutHelp => {
                self.show_shortcut_help = !self.show_shortcut_help;
                assert(self@ =~= start.acted(av, now).state);
                nothing()
            },
            UiAction::ToggleTheme => {
                self.theme = self.theme.toggle();
                self.settings.set_theme(self.theme);
                assert(self@ =~= start.acted(av, now).state);
                one(Effect::SaveSettings)
            },
            _ => nothing(),
        }
    }

    /// Carries out an action.
    pub fn apply_action(&mut self, tree: &mut FileTree, action: UiAction, now: u64) -> (r: Vec<Effect>)
        requires
            old(self).wf(),
            tree_shows(*old(tree), old(self)@.settings),
        ensures
            final(self).wf(),
            final(self).outcome(r@) == old(self)@.acted(action@, now),
            tree_shows(*final(tree), final(self)@.settings),
            final(tree)@ == tree_after(old(tree)@, action@),
            final(tree).roots@[2] == old(tree).roots@[2],
    {
        match action {
            UiAction::RevealInTree(p) => {
                tree.reveal_path(&p);
                nothing()
            },
            UiAction::ToggleFavorite => self.act_on_lists(tree, UiAction::ToggleFavorite, now),
            UiAction::AddFavorite(p) => self.act_on_lists(tree, UiAction::AddFavorite(p), now),
            UiAction::RemoveFavorite(p) => self.act_on_lists(
                tree,
                UiAction::RemoveFavorite(p),
                now,
            ),
            UiAction::RemoveRecent(p) => self.act_on_lists(tree, UiAction::RemoveRecent(p), now),
            UiAction::Prev => self.change(UiAction::Prev, now),
            UiAction::Next => self.change(UiAction::Next, now),
            UiAction::ToggleFullscreen => self.change(UiAction::ToggleFullscreen, now),
            UiAction::ToggleTree => self.change(UiAction::ToggleTree, now),
            UiAction::ToggleThumbs => self.change(UiAction::ToggleThumbs, now),
            UiAction::ThumbClicked(i) => self.change(UiAction::ThumbClicked(i), now),
            UiAction::FolderChosen(p, root) => self.change(UiAction::FolderChosen(p, root), now),
            UiAction::ToggleShortcutHelp => self.change(UiAction::ToggleShortcutHelp, now),
            UiAction::ToggleTheme => self.change(UiAction::ToggleTheme, now),
            other => self.ask(&other, now),
        }
    }
}

/// What the program was started with, by its argument, whether that is a file, and the
/// image's size where it is known.
pub open spec fn target_of(arg: Option<PathView>, is_file: bool, size: Option<(u32, u32)>) -> LaunchView {
    match arg {
        Some(p) => if is_file && SupportedFormats::supports(p.parts()) {
            match size {
                Some(s) => LaunchView::SingleImage { path: p, width: s.0, height: s.1 },
                None => LaunchView::SingleImage { path: p, width: DEFAULT_W, height: DEFAULT_H },
            }
        } else {
            LaunchView::Folder(p)
        },
        None => LaunchView::NoTarget,
    }
}

/// Decides what the program was started with. `arg` is its argument, `is_file` tells
/// whether that is a file, and `size` is the image's size where it is known.
pub fn choose_target(arg: Option<FilePath>, is_file: bool, size: Option<(u32, u32)>) -> (r:
    LaunchTarget)
    ensures
        r@ == target_of(path_view(arg), is_file, size),
{
    match arg {
        None => LaunchTarget::NoTarget,
        Some(p) => {
            if is_file && SupportedFormats::is_supported(&p) {
                let (width, height) = match size {
                    Some(s) => s,
                    None => (DEFAULT_W, DEFAULT_H),
                };
                LaunchTarget::SingleImage { path: p, width, height }
            } else {
                LaunchTarget::Folder(p)
            }
        },
    }
}

} // verus!
