use aperture::actions::{UiAction, ROOT_FAVORITES, ROOT_RECENT, ROOT_THIS_PC};
use aperture::effect::Effect;
use aperture::file_tree::FileTree;
use aperture::fs::{DirEntry, FileMeta, Listing};
use aperture::keys::{Button, Key};
use aperture::nav::NavigationDirection;
use aperture::path::FilePath;
use aperture::settings::{SettingsData, SettingsStore, ThemeSetting};
use aperture::viewer::SlideDir;
use aperture::window::{
    choose_target, launch_folder, LaunchTarget, MainWindow, MouseOutcome, Sibling,
    CHROME_HIDE_MILLIS, DOUBLE_CLICK_MILLIS,
};

fn p(names: &[&str]) -> FilePath {
    let mut f = FilePath::drive_root("C:".to_string());
    for n in names {
        f = f.join(n);
    }
    f
}

fn listing(folder: &[&str], names: &[&str]) -> Listing {
    let mut v = Vec::new();
    for n in names {
        v.push(DirEntry {
            path: p(folder).join(n),
            is_file: true,
            is_dir: false,
            hidden: false,
            meta: Some(FileMeta { len: 1, modified: 1 }),
        });
    }
    Listing::Entries(v)
}

fn kinds(todo: &[Effect]) -> Vec<String> {
    todo.iter()
        .map(|e| {
            let text = format!("{:?}", e);
            let end = text.find(['(', ' ']).unwrap_or(text.len());
            text[..end].to_string()
        })
        .collect()
}

fn start() -> (MainWindow, FileTree) {
    let mut tree = FileTree::new(&vec![false, false, true]);
    let w = MainWindow::new(
        LaunchTarget::Folder(p(&["pics"])),
        SettingsStore::new(None),
        listing(&["pics"], &["a.jpg", "b.jpg", "c.jpg", "d.jpg", "e.jpg"]),
        &mut tree,
    );
    (w, tree)
}

#[test]
fn targets_of_the_start() {
    let image = choose_target(Some(p(&["a.jpg"])), true, Some((30, 20)));
    assert!(matches!(image, LaunchTarget::SingleImage { width: 30, height: 20, .. }));
    let unknown = choose_target(Some(p(&["a.jpg"])), true, None);
    assert!(matches!(unknown, LaunchTarget::SingleImage { width: 1280, height: 800, .. }));
    assert!(matches!(choose_target(Some(p(&["a.txt"])), true, None), LaunchTarget::Folder(_)));
    assert!(matches!(choose_target(Some(p(&["a.jpg"])), false, None), LaunchTarget::Folder(_)));
    assert!(matches!(choose_target(None, false, None), LaunchTarget::NoTarget));
}

#[test]
fn folders_of_the_start() {
    let mut d = SettingsData::default();
    d.last_folder = Some(p(&["last"]));
    let s = SettingsStore::new(Some(d));
    assert_eq!(launch_folder(&LaunchTarget::NoTarget, &s), Some(p(&["last"])));
    assert_eq!(launch_folder(&LaunchTarget::Folder(p(&["x"])), &s), Some(p(&["x"])));
    let single = LaunchTarget::SingleImage { path: p(&["y", "a.jpg"]), width: 1, height: 1 };
    assert_eq!(launch_folder(&single, &s), Some(p(&["y"])));
    let bare = LaunchTarget::SingleImage { path: FilePath::empty(), width: 1, height: 1 };
    assert_eq!(launch_folder(&bare, &s), Some(FilePath::current_dir()));
}

#[test]
fn a_folder_is_opened_and_noted() {
    let (w, tree) = start();
    assert_eq!(w.nav.count(), 5);
    assert!(w.show_tree && w.show_thumbs);
    assert_eq!(w.settings.last_folder(), Some(p(&["pics"])));
    assert_eq!(w.settings.recent_folders(), vec![p(&["pics"])]);
    assert_eq!(w.settings.window_size(), Some((1280, 800)));
    assert_eq!((w.viewport_w, w.viewport_h), (820, 712));
    assert_eq!(tree.roots[ROOT_RECENT].children.as_ref().unwrap().len(), 1);
    assert_eq!(w.active_root, ROOT_THIS_PC);
    assert_eq!(w.shown_folder(), Some(p(&["pics"])));
}

#[test]
fn a_single_image_hides_the_panels() {
    let mut tree = FileTree::new(&Vec::new());
    let w = MainWindow::new(
        LaunchTarget::SingleImage { path: p(&["pics", "b.jpg"]), width: 30, height: 20 },
        SettingsStore::new(None),
        listing(&["pics"], &["a.jpg", "b.jpg"]),
        &mut tree,
    );
    assert!(!w.show_tree && !w.show_thumbs);
    assert_eq!(w.nav.current_index(), 1);
    assert_eq!(w.single_image_size, Some((30, 20)));
}

#[test]
fn a_last_folder_that_is_gone_is_not_opened() {
    let mut d = SettingsData::default();
    d.last_folder = Some(p(&["gone"]));
    d.window_size = Some((400, 90));
    d.theme = Some("light".to_string());
    let mut tree = FileTree::new(&Vec::new());
    let w = MainWindow::new(
        LaunchTarget::NoTarget,
        SettingsStore::new(Some(d)),
        Listing::NotADirectory,
        &mut tree,
    );
    assert!(w.nav.is_empty());
    assert!(w.nav.folder().is_none());
    assert!(w.initial_folder.is_none());
    assert_eq!((w.viewport_w, w.viewport_h), (0, 2));
    assert_eq!(w.theme, ThemeSetting::Light);
}

#[test]
fn steps_ask_for_the_image() {
    let (mut w, mut tree) = start();
    let todo = w.apply_action(&mut tree, UiAction::Prev, 0);
    assert_eq!(w.nav.current_index(), 4);
    assert!(matches!(todo[0], Effect::RequestCurrent(SlideDir::Previous)));
    assert!(matches!(todo[1], Effect::Redraw));
    let todo = w.apply_action(&mut tree, UiAction::Next, 0);
    assert_eq!(w.nav.current_index(), 0);
    assert!(matches!(todo[0], Effect::RequestCurrent(SlideDir::Next)));
    let todo = w.handle_navigation(NavigationDirection::Last, SlideDir::NoSlide);
    assert_eq!((w.nav.current_index(), todo.len()), (4, 2));
}

#[test]
fn pages_stop_at_the_ends() {
    let (mut w, _) = start();
    w.set_viewport(500, 450);
    w.handle_navigation_jump(1);
    assert_eq!(w.nav.current_index(), 2);
    w.handle_navigation_jump(1);
    w.handle_navigation_jump(1);
    assert_eq!(w.nav.current_index(), 4);
    w.handle_navigation_jump(-1);
    assert_eq!(w.nav.current_index(), 2);
    w.handle_navigation_jump(-5);
    assert_eq!(w.nav.current_index(), 0);
    let mut tree = FileTree::new(&Vec::new());
    let mut empty = MainWindow::new(
        LaunchTarget::NoTarget,
        SettingsStore::new(None),
        Listing::NotADirectory,
        &mut tree,
    );
    assert!(empty.handle_navigation_jump(1).is_empty());
}

#[test]
fn a_folder_without_images_is_not_entered() {
    let (mut w, mut tree) = start();
    w.handle_navigation(NavigationDirection::Index(3), SlideDir::NoSlide);
    let todo = w.navigate_to_folder(&mut tree, p(&["docs"]), listing(&["docs"], &["a.txt"]));
    assert!(todo.is_empty());
    assert_eq!(w.nav.current_index(), 3);
    assert_eq!(w.settings.last_folder(), Some(p(&["pics"])));
    let todo = w.navigate_to_folder(&mut tree, p(&["new"]), listing(&["new"], &["a.jpg"]));
    assert_eq!(kinds(&todo), vec!["SaveSettings", "ClearCaches", "RequestCurrent", "Redraw"]);
    assert_eq!(w.nav.folder(), Some(&p(&["new"])));
    assert_eq!(w.settings.recent_folders(), vec![p(&["new"]), p(&["pics"])]);
    assert_eq!(tree.roots[ROOT_RECENT].children.as_ref().unwrap()[0].path, p(&["new"]));
}

#[test]
fn a_picked_folder_may_be_empty() {
    let (mut w, mut tree) = start();
    let todo = w.folder_picked(&mut tree, p(&["docs"]), listing(&["docs"], &[]));
    assert_eq!(todo.len(), 4);
    assert_eq!(w.settings.last_folder(), Some(p(&["docs"])));
    assert_eq!(w.settings.recent_folders(), vec![p(&["pics"])]);
    assert!(w.nav.is_empty());
    assert!(w.folder_picked(&mut tree, p(&["bad"]), Listing::Unreadable).is_empty());
    assert_eq!(w.nav.folder(), Some(&p(&["docs"])));
}

#[test]
fn dropped_files_and_folders() {
    let (mut w, mut tree) = start();
    let todo = w.handle_dropped_file(p(&["x"]), true);
    assert!(matches!(&todo[0], Effect::OpenFolder(f) if *f == p(&["x"])));
    assert!(w.handle_dropped_file(p(&["x", "a.txt"]), false).is_empty());
    w.show_tree = false;
    let todo = w.handle_dropped_file(p(&["x", "b.jpg"]), false);
    assert_eq!(kinds(&todo), vec!["OpenFile"]);
    assert!(w.show_tree);
    let todo = w.open_dropped(
        &mut tree,
        p(&["x"]),
        &p(&["x", "b.jpg"]),
        listing(&["x"], &["a.jpg", "b.jpg"]),
    );
    assert_eq!(todo.len(), 4);
    assert_eq!(w.nav.current_index(), 1);
    assert_eq!(w.settings.last_folder(), Some(p(&["x"])));
    let todo = w.open_dropped(&mut tree, p(&["y"]), &p(&["y", "b.jpg"]), Listing::Unreadable);
    assert!(todo.is_empty());
    assert_eq!(w.nav.folder(), Some(&p(&["x"])));
}

#[test]
fn folders_are_cycled_among_their_siblings() {
    let (mut w, _) = start();
    assert_eq!(w.cycle_parent(), Some(p(&[])));
    let siblings = || {
        vec![
            Sibling { path: p(&["zoo"]), listing: listing(&["zoo"], &["a.jpg"]) },
            Sibling { path: p(&["pics"]), listing: listing(&["pics"], &["a.jpg"]) },
            Sibling { path: p(&["docs"]), listing: listing(&["docs"], &["a.txt"]) },
            Sibling { path: p(&["art"]), listing: listing(&["art"], &["a.jpg"]) },
        ]
    };
    let todo = w.handle_cycle_folder(1, siblings());
    assert!(matches!(&todo[0], Effect::OpenFolder(f) if *f == p(&["zoo"])));
    let todo = w.handle_cycle_folder(-1, siblings());
    assert!(matches!(&todo[0], Effect::OpenFolder(f) if *f == p(&["art"])));
    let todo = w.handle_cycle_folder(-2, siblings());
    assert!(matches!(&todo[0], Effect::OpenFolder(f) if *f == p(&["zoo"])));
    assert!(w.handle_cycle_folder(1, Vec::new()).is_empty());
}

#[test]
fn favorites_are_cycled_when_chosen_there() {
    let (mut w, mut tree) = start();
    w.apply_action(&mut tree, UiAction::AddFavorite(p(&["f1"])), 0);
    w.apply_action(&mut tree, UiAction::AddFavorite(p(&["f2"])), 0);
    let todo = w.apply_action(&mut tree, UiAction::FolderChosen(p(&["f1"]), ROOT_FAVORITES), 0);
    assert_eq!(kinds(&todo), vec!["OpenFolder"]);
    assert_eq!(w.cycle_parent(), None);
    // The current folder is not on the list: the cycle starts from its first folder.
    let todo = w.handle_cycle_folder(1, Vec::new());
    assert!(matches!(&todo[0], Effect::OpenFolder(f) if *f == p(&["f1"])));
}

#[test]
fn fullscreen_goes_and_comes() {
    let (mut w, mut tree) = start();
    w.show_shortcut_help = true;
    let todo = w.apply_action(&mut tree, UiAction::ToggleFullscreen, 500);
    assert!(w.is_fullscreen && w.chrome_visible && !w.show_shortcut_help);
    assert_eq!(w.chrome_hide_at, Some(500));
    assert_eq!(
        kinds(&todo),
        vec!["MarkViewportTransition", "ResetTravel", "ThickFrame", "SetFullscreen"]
    );
    assert!(matches!(todo[2], Effect::ThickFrame(false)));
    let todo = w.action_toggle_fullscreen(900);
    assert!(!w.is_fullscreen);
    assert_eq!(w.chrome_hide_at, None);
    assert!(matches!(todo[1], Effect::ThickFrame(true)));
    assert!(matches!(todo[2], Effect::SetFullscreen(false)));
}

#[test]
fn the_theme_is_toggled_and_saved() {
    let (mut w, mut tree) = start();
    assert!(w.plan_frame().set_visuals);
    assert!(!w.plan_frame().set_visuals);
    let todo = w.apply_action(&mut tree, UiAction::ToggleTheme, 0);
    assert_eq!(kinds(&todo), vec!["SaveSettings"]);
    assert_eq!((w.theme, w.settings.theme()), (ThemeSetting::Light, ThemeSetting::Light));
    assert!(w.plan_frame().set_visuals);
    w.apply_action(&mut tree, UiAction::ToggleTheme, 0);
    assert_eq!((w.theme, w.settings.theme()), (ThemeSetting::Dark, ThemeSetting::Dark));
}

#[test]
fn favorites_follow_the_open_folder() {
    let (mut w, mut tree) = start();
    w.apply_action(&mut tree, UiAction::ToggleFavorite, 0);
    assert_eq!(w.settings.favorite_folders(), vec![p(&["pics"])]);
    assert_eq!(tree.roots[ROOT_FAVORITES].children.as_ref().unwrap().len(), 1);
    w.apply_action(&mut tree, UiAction::ToggleFavorite, 0);
    assert!(w.settings.favorite_folders().is_empty());
    w.apply_action(&mut tree, UiAction::AddFavorite(p(&["x"])), 0);
    w.apply_action(&mut tree, UiAction::RemoveFavorite(p(&["x"])), 0);
    assert!(tree.roots[ROOT_FAVORITES].children.as_ref().unwrap().is_empty());
    w.apply_action(&mut tree, UiAction::RemoveRecent(p(&["pics"])), 0);
    assert!(w.settings.recent_folders().is_empty());
    assert!(tree.roots[ROOT_RECENT].children.as_ref().unwrap().is_empty());
}

#[test]
fn other_actions() {
    let (mut w, mut tree) = start();
    let mut run = |a: UiAction| kinds(&w.apply_action(&mut tree, a, 0));
    assert_eq!(run(UiAction::OpenFolder), vec!["PickFolder"]);
    assert_eq!(run(UiAction::Fit), vec!["FitToScreen", "Redraw"]);
    assert_eq!(run(UiAction::OneToOne), vec!["ActualSize", "Redraw"]);
    assert_eq!(run(UiAction::ToggleTree), vec!["Relayout"]);
    assert_eq!(run(UiAction::ToggleThumbs), vec!["Relayout"]);
    assert_eq!(run(UiAction::ThumbClicked(2)), vec!["RequestCurrent", "Redraw"]);
    assert_eq!(run(UiAction::ThumbClicked(9)), Vec::<String>::new());
    assert_eq!(run(UiAction::ToggleShortcutHelp), Vec::<String>::new());
    assert_eq!(run(UiAction::RevealInExplorer(p(&["x"]))), vec!["RevealInExplorer"]);
    assert_eq!(run(UiAction::BrowseFolder(p(&["x"]))), vec!["OpenFolder"]);
    assert_eq!(run(UiAction::RevealInTree(p(&["x"]))), Vec::<String>::new());
    assert_eq!(run(UiAction::ExitApp), vec!["SaveGeometry", "Exit"]);
    assert_eq!(run(UiAction::MinimizeWindow), vec!["Minimize"]);
    assert_eq!(run(UiAction::ToggleMaximize), vec!["ToggleMaximize"]);
    assert_eq!(run(UiAction::SetWallpaper), vec!["SetWallpaper"]);
    assert_eq!(run(UiAction::OpenInExplorer), vec!["RevealInExplorer"]);
    assert!(!w.show_tree && !w.show_thumbs && w.show_shortcut_help);
    assert_eq!(w.nav.current_index(), 2);
    assert_eq!(tree.reveal_target, Some(p(&["x"])));
}

#[test]
fn the_picker_starts_at_the_last_folder() {
    let (mut w, mut tree) = start();
    let todo = w.apply_action(&mut tree, UiAction::OpenFolder, 0);
    assert!(matches!(&todo[0], Effect::PickFolder(f) if *f == p(&["pics"])));
    let mut tree = FileTree::new(&Vec::new());
    let mut fresh = MainWindow::new(
        LaunchTarget::NoTarget,
        SettingsStore::new(None),
        Listing::NotADirectory,
        &mut tree,
    );
    let todo = fresh.apply_action(&mut tree, UiAction::OpenFolder, 0);
    assert!(matches!(&todo[0], Effect::PickFolder(f) if *f == p(&[])));
    assert!(fresh.apply_action(&mut tree, UiAction::SetWallpaper, 0).is_empty());
    assert!(fresh.apply_action(&mut tree, UiAction::ToggleFavorite, 0).is_empty());
}

#[test]
fn keys_drive_the_window() {
    let (mut w, _) = start();
    let (used, todo) = w.key_pressed(Key::ArrowRight, false, 0);
    assert!(used);
    assert_eq!(todo.len(), 2);
    assert_eq!(w.nav.current_index(), 1);
    let (used, todo) = w.key_pressed(Key::ArrowRight, false, 30);
    assert!(used && todo.is_empty());
    assert_eq!(w.frame_step(250).len(), 2);
    assert_eq!(w.nav.current_index(), 2);
    w.key_released(Key::ArrowRight);
    assert!(w.frame_step(9000).is_empty());
    let (used, todo) = w.key_pressed(Key::KeyD, true, 0);
    assert!(used && todo.is_empty());
    let waiting = w.take_actions();
    assert!(matches!(waiting[..], [UiAction::ToggleFavorite]));
    assert!(w.take_actions().is_empty());
    let (used, todo) = w.key_pressed(Key::Enter, false, 0);
    assert!(!used && todo.is_empty());
    let (_, todo) = w.key_pressed(Key::Escape, false, 0);
    assert_eq!(kinds(&todo), vec!["SaveGeometry", "Exit"]);
    let (_, todo) = w.key_pressed(Key::ArrowLeft, true, 0);
    assert!(matches!(todo[0], Effect::CycleFolder(-1)));
    w.queue_action(UiAction::Next);
    assert_eq!(w.take_actions().len(), 1);
    w.key_pressed(Key::End, false, 0);
    assert_eq!(w.nav.current_index(), 4);
}

#[test]
fn controls_of_a_full_screen() {
    let (mut w, _) = start();
    assert!(!w.tick_chrome(false, 10_000));
    w.action_toggle_fullscreen(0);
    assert!(w.plan_frame().overlay);
    assert!(!w.tick_chrome(false, CHROME_HIDE_MILLIS - 1));
    assert!(!w.tick_chrome(true, 2000));
    assert!(!w.tick_chrome(false, 2000 + CHROME_HIDE_MILLIS - 1));
    assert!(w.tick_chrome(false, 2000 + CHROME_HIDE_MILLIS));
    assert!(!w.chrome_visible);
    assert!(!w.plan_frame().overlay);
    w.wake_chrome(9000);
    assert!(w.chrome_visible);
    assert_eq!(CHROME_HIDE_MILLIS, 2500);
}

#[test]
fn the_mouse_pans_and_clicks() {
    let (mut w, _) = start();
    assert_eq!(w.mouse_input(Button::Left, true, None, true, 1000), MouseOutcome::StartPan);
    assert!(w.pan_active);
    assert_eq!(w.mouse_input(Button::Left, false, None, true, 1010), MouseOutcome::Consumed);
    assert!(!w.pan_active);
    assert_eq!(w.mouse_input(Button::Left, true, None, true, 1200), MouseOutcome::DoubleClick);
    w.mouse_input(Button::Left, false, None, true, 1210);
    assert_eq!(w.mouse_input(Button::Left, true, None, true, 1300), MouseOutcome::StartPan);
    assert_eq!(
        w.mouse_input(Button::Left, true, None, true, 1300 + DOUBLE_CLICK_MILLIS),
        MouseOutcome::StartPan
    );
    assert_eq!(w.mouse_input(Button::Right, true, None, true, 0), MouseOutcome::ShowImageMenu);
    assert_eq!(w.mouse_input(Button::Middle, true, None, true, 0), MouseOutcome::Consumed);
    assert_eq!(w.mouse_input(Button::Left, true, None, false, 0), MouseOutcome::Forward);
    assert_eq!(kinds(&w.double_clicked(true)), vec!["ActualSize", "Redraw"]);
    assert_eq!(kinds(&w.double_clicked(false)), vec!["FitToScreen", "Redraw"]);
}

#[test]
fn panel_edges_are_dragged() {
    let (mut w, _) = start();
    assert!(w.hover_edge(Some(0)));
    assert!(!w.hover_edge(Some(0)));
    assert_eq!(w.marked_edge(), Some(0));
    w.show_shortcut_help = true;
    assert_eq!(w.mouse_input(Button::Left, true, Some(1), false, 0), MouseOutcome::Consumed);
    assert_eq!((w.drag_panel, w.marked_edge()), (Some(1), Some(1)));
    assert!(!w.show_shortcut_help);
    assert!(!w.hover_edge(None));
    assert_eq!(w.mouse_input(Button::Left, false, None, false, 0), MouseOutcome::Consumed);
    assert_eq!(w.drag_panel, None);
    w.action_toggle_fullscreen(0);
    assert_eq!(w.mouse_input(Button::Left, true, Some(1), false, 0), MouseOutcome::Forward);
}

#[test]
fn frames_are_planned() {
    let (mut w, _) = start();
    let plan = w.plan_frame();
    assert!(plan.titlebar && plan.statusbar && plan.tree_open && plan.thumbs_open);
    assert!(!plan.overlay && !plan.help && !plan.restore_child);
    w.show_shortcut_help = true;
    assert!(w.plan_frame().help);
    w.help_drawn();
    w.close_shortcut_help();
    assert!(w.plan_frame().restore_child);
    assert!(!w.plan_frame().restore_child);
    w.action_toggle_fullscreen(0);
    let plan = w.plan_frame();
    assert!(!plan.titlebar && !plan.tree_open && !plan.thumbs_open && plan.overlay);
}

#[test]
fn thumbnails_scroll_to_the_image() {
    let (mut w, _) = start();
    assert!(!w.thumbs_drawn());
    w.handle_navigation(NavigationDirection::Next, SlideDir::Next);
    assert!(w.thumbs_drawn());
    assert!(!w.thumbs_drawn());
    w.save_window_geometry(900, 700);
    assert_eq!(w.settings.window_size(), Some((900, 700)));
}

#[test]
fn a_folder_is_asked_for_as_it_was_given() {
    let small = || FilePath::drive_root("c:".to_string()).join("pics");
    let settings = SettingsStore::new(None);
    let from = launch_folder(&LaunchTarget::Folder(small()), &settings);
    assert_eq!(from.unwrap().display(), "c:\\pics");
    let image = LaunchTarget::SingleImage { path: small().join("a.jpg"), width: 1, height: 1 };
    assert_eq!(launch_folder(&image, &settings).unwrap().display(), "c:\\pics");
    let mut tree = FileTree::new(&vec![true; 26]);
    let target = LaunchTarget::Folder(p(&["other"]));
    let mut w = MainWindow::new(target, settings, Listing::Entries(Vec::new()), &mut tree);
    let todo = w.apply_action(&mut tree, UiAction::BrowseFolder(small()), 0);
    assert!(matches!(&todo[0], Effect::OpenFolder(f) if f.display() == "c:\\pics"));
    let todo = w.handle_dropped_file(small().join("a.jpg"), false);
    assert!(matches!(&todo[0], Effect::OpenFile { folder, .. } if folder.display() == "c:\\pics"));
}
