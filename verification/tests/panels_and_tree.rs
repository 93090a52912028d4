use aperture::actions::{
    chosen_image_entry, chosen_tree_entry, explorer_argument, image_context_menu,
    tree_context_menu, ImageMenuChoice, UiAction, ID_ADD_FAVORITE, ID_BROWSE, ID_OPEN_EXPLORER,
    ID_REMOVE_FAVORITE, ID_REMOVE_RECENT, ID_REVEAL_IN_TREE, ROOT_FAVORITES, ROOT_RECENT,
    ROOT_THIS_PC,
};
use aperture::file_tree::{enumerate_subdirs, id_salt, FileTree, TreeNode};
use aperture::fs::{DirEntry, Listing};
use aperture::grain::{grain, grain_seeds};
use aperture::panels::{
    bar_name, fullscreen_label, image_count_label, position_label, thumb_window, Settings,
    SettingsPanel, TitleBar, TreePanel,
};
use aperture::path::FilePath;
use aperture::settings::ThemeSetting;
use aperture::shortcuts::{
    Action, ShortcutManager, VK_CONTROL, VK_DELETE, VK_E, VK_F, VK_F11, VK_LEFT, VK_OEM_COMMA,
    VK_OEM_MINUS, VK_OEM_PLUS, VK_RIGHT, VK_T,
};
use aperture::theme::{dark_palette, light_palette, palette_for, system_theme_is_light};

fn p(names: &[&str]) -> FilePath {
    let mut f = FilePath::drive_root("C:".to_string());
    for n in names {
        f = f.join(n);
    }
    f
}

fn dir(names: &[&str], hidden: bool) -> DirEntry {
    DirEntry { path: p(names), is_file: false, is_dir: true, hidden, meta: None }
}

fn tree() -> FileTree {
    let mut present = vec![false; 26];
    present[2] = true;
    present[4] = true;
    FileTree::new(&present)
}

#[test]
fn the_tree_starts_with_three_roots() {
    let t = tree();
    let names: Vec<&str> = t.roots.iter().map(|r| r.display_name.as_str()).collect();
    assert_eq!(names, vec!["Favorites", "Recent", "This PC"]);
    let drives: Vec<String> =
        t.roots[2].children.as_ref().unwrap().iter().map(|d| d.path.display()).collect();
    assert_eq!(drives, vec!["C:\\", "E:\\"]);
    assert_eq!(t.roots[2].children.as_ref().unwrap()[1].display_name, "E:");
    assert!(t.roots[0].loading && t.roots[1].loading && !t.roots[2].loading);
}

#[test]
fn lists_become_leaves() {
    let mut t = tree();
    t.refresh_recent(&vec![p(&["a", "b"]), p(&[])]);
    let recent = t.roots[1].children.as_ref().unwrap();
    assert_eq!(recent[0].display_name, "b");
    assert_eq!(recent[1].display_name, "C:\\");
    t.refresh_favorites(&vec![p(&["f"])]);
    assert_eq!(t.roots[0].children.as_ref().unwrap()[0].path, p(&["f"]));
    assert_eq!(t.roots[1].children.as_ref().unwrap().len(), 2);
}

#[test]
fn subfolders_are_sorted_and_hidden_ones_left_out() {
    let mut f = dir(&["x", "file"], false);
    f.is_dir = false;
    f.is_file = true;
    let listing = Listing::Entries(vec![
        dir(&["x", "b"], false),
        dir(&["x", ".git"], false),
        dir(&["x", "secret"], true),
        f,
        dir(&["x", "a"], false),
    ]);
    let nodes = enumerate_subdirs(listing);
    let names: Vec<&str> = nodes.iter().map(|n| n.display_name.as_str()).collect();
    assert_eq!(names, vec!["a", "b"]);
    assert!(enumerate_subdirs(Listing::Unreadable).is_empty());
    assert!(enumerate_subdirs(Listing::NotADirectory).is_empty());
}

#[test]
fn children_are_loaded_into_folders_only() {
    let mut n = TreeNode::root(p(&["x"]), "x".to_string());
    FileTree::load_children(&mut n, Listing::Entries(vec![dir(&["x", "a"], false)]));
    assert_eq!(n.children.as_ref().unwrap().len(), 1);
    let mut file = TreeNode::root(p(&["x"]), "x".to_string());
    file.is_dir = false;
    FileTree::load_children(&mut file, Listing::Entries(vec![dir(&["x", "a"], false)]));
    assert!(file.children.as_ref().unwrap().is_empty());
    let mut root = TreeNode::root(FilePath::empty(), "Recent".to_string());
    root.loading = true;
    FileTree::load_children(&mut root, Listing::NotADirectory);
    assert!(!root.loading);
}

#[test]
fn children_are_asked_for_once() {
    let mut t = tree();
    t.header_clicked(&p(&["a"]), ROOT_THIS_PC, 1, None);
    let mut node = TreeNode::root(p(&["a"]), "a".to_string());
    assert!(t.row_state(&node, ROOT_THIS_PC, 1, None, 0).must_load);
    FileTree::load_once(&mut node, Listing::Entries(Vec::new()));
    assert!(node.children.as_ref().unwrap().is_empty());
    assert!(!t.row_state(&node, ROOT_THIS_PC, 1, None, 0).must_load);
    let mut node = TreeNode::root(p(&["a"]), "a".to_string());
    FileTree::load_once(&mut node, Listing::Entries(vec![dir(&["a", "b"], false)]));
    assert_eq!(node.children.as_ref().unwrap()[0].display_name, "b");
    assert!(node.loading);
}

#[test]
fn revealing_expands_all_ancestors() {
    let mut t = tree();
    t.reveal_path(&p(&["a", "b", "c"]));
    for names in [vec![], vec!["a"], vec!["a", "b"]] {
        let node = TreeNode::root(p(&names), "n".to_string());
        assert!(t.row_state(&node, ROOT_THIS_PC, 1, None, 0).is_open);
    }
    let target = TreeNode::root(p(&["a", "b", "c"]), "c".to_string());
    let row = t.row_state(&target, ROOT_THIS_PC, 3, None, 0);
    assert!(!row.is_open && row.is_reveal_target);
    assert!(!t.row_state(&target, ROOT_RECENT, 3, None, 0).is_reveal_target);
    t.after_draw(true, false);
    assert!(!t.row_state(&target, ROOT_THIS_PC, 3, None, 0).is_reveal_target);
}

#[test]
fn a_click_opens_and_closes() {
    let mut t = tree();
    let node = TreeNode::root(p(&["a"]), "a".to_string());
    let chosen = t.header_clicked(&p(&["a"]), ROOT_THIS_PC, 1, None);
    assert!(matches!(chosen, Some(UiAction::FolderChosen(_, 2))));
    let row = t.row_state(&node, ROOT_THIS_PC, 1, None, 0);
    assert!(row.is_open && row.must_load);
    assert!(!t.row_state(&node, ROOT_THIS_PC, 0, None, 0).must_load);
    t.header_clicked(&p(&["a"]), ROOT_THIS_PC, 1, None);
    assert!(!t.row_state(&node, ROOT_THIS_PC, 1, None, 0).is_open);
    assert!(t.header_clicked(&FilePath::empty(), ROOT_RECENT, 0, None).is_none());
}

#[test]
fn closing_over_the_open_folder_scrolls_the_recent_list() {
    let mut t = tree();
    let current = p(&["a", "b"]);
    t.header_clicked(&p(&["a"]), ROOT_THIS_PC, 1, Some(&current));
    assert!(!t.is_recent_scroll(&current, ROOT_RECENT));
    t.header_clicked(&p(&["a"]), ROOT_THIS_PC, 1, Some(&current));
    assert!(t.is_recent_scroll(&current, ROOT_RECENT));
    assert!(!t.is_recent_scroll(&current, ROOT_FAVORITES));
    t.after_draw(false, true);
    assert!(!t.is_recent_scroll(&current, ROOT_RECENT));
}

#[test]
fn rows_of_lists_and_current_folder() {
    let t = tree();
    let node = TreeNode::root(p(&["a"]), "a".to_string());
    let row = t.row_state(&node, ROOT_FAVORITES, 1, Some(&p(&["a"])), ROOT_FAVORITES);
    assert!(row.is_leaf_entry && row.is_current && !row.is_virtual_root && !row.must_load);
    let row = t.row_state(&node, ROOT_THIS_PC, 1, Some(&p(&["a"])), ROOT_FAVORITES);
    assert!(!row.is_leaf_entry && !row.is_current);
    let root = TreeNode::root(FilePath::empty(), "Recent".to_string());
    assert!(t.row_state(&root, ROOT_RECENT, 0, None, 0).is_virtual_root);
}

#[test]
fn scrolling_to_the_top_is_asked_once() {
    let mut t = tree();
    assert!(!t.take_scroll_to_top());
    t.request_top();
    assert!(t.take_scroll_to_top());
    assert!(!t.take_scroll_to_top());
}

#[test]
fn rows_have_their_own_ids() {
    let root = TreeNode::root(FilePath::empty(), "Recent".to_string());
    assert_eq!(id_salt(&root, 1, 0), "tree-root-r1-0-Recent");
    let node = TreeNode::root(p(&["a"]), "a".to_string());
    assert_eq!(id_salt(&node, 2, 1), "tree-r2-C:\\a");
}

#[test]
fn tree_menus_by_root() {
    let ids = |root: usize, depth: usize| -> Vec<u32> {
        tree_context_menu(root, depth).iter().map(|m| m.id).collect()
    };
    assert_eq!(ids(ROOT_THIS_PC, 0), Vec::<u32>::new());
    assert_eq!(ids(ROOT_FAVORITES, 1), vec![ID_OPEN_EXPLORER, ID_BROWSE, ID_REMOVE_FAVORITE]);
    assert_eq!(
        ids(ROOT_RECENT, 1),
        vec![ID_OPEN_EXPLORER, ID_BROWSE, ID_ADD_FAVORITE, ID_REMOVE_RECENT]
    );
    assert_eq!(ids(ROOT_THIS_PC, 1), vec![ID_OPEN_EXPLORER, ID_BROWSE, ID_REVEAL_IN_TREE]);
    assert_eq!(tree_context_menu(ROOT_FAVORITES, 1)[2].text, "取消收藏");
}

#[test]
fn chosen_entries_become_actions() {
    let f = || p(&["a"]);
    assert!(matches!(chosen_tree_entry(0, f(), 1), None));
    assert!(matches!(chosen_tree_entry(7, f(), 1), None));
    assert!(matches!(
        chosen_tree_entry(ID_OPEN_EXPLORER, f(), 1),
        Some(UiAction::RevealInExplorer(_))
    ));
    assert!(matches!(chosen_tree_entry(ID_BROWSE, f(), 1), Some(UiAction::FolderChosen(_, 1))));
    assert!(matches!(chosen_tree_entry(ID_ADD_FAVORITE, f(), 1), Some(UiAction::AddFavorite(_))));
    assert!(matches!(
        chosen_tree_entry(ID_REMOVE_FAVORITE, f(), 1),
        Some(UiAction::RemoveFavorite(_))
    ));
    assert!(matches!(chosen_tree_entry(ID_REMOVE_RECENT, f(), 1), Some(UiAction::RemoveRecent(_))));
    assert!(matches!(
        chosen_tree_entry(ID_REVEAL_IN_TREE, f(), 1),
        Some(UiAction::RevealInTree(_))
    ));
}

#[test]
fn the_menu_over_the_image() {
    assert_eq!(image_context_menu().len(), 5);
    assert_eq!(image_context_menu()[3].text, "设为桌面壁纸");
    let cur = p(&["a", "b.jpg"]);
    match chosen_image_entry(1, &cur) {
        ImageMenuChoice::CopyPath(s) => assert_eq!(s, "C:\\a\\b.jpg"),
        _ => panic!("no path"),
    }
    assert!(matches!(chosen_image_entry(2, &cur), ImageMenuChoice::Explorer));
    assert!(matches!(chosen_image_entry(3, &cur), ImageMenuChoice::Print));
    assert!(matches!(chosen_image_entry(4, &cur), ImageMenuChoice::Wallpaper));
    match chosen_image_entry(5, &cur) {
        ImageMenuChoice::Locate(f) => assert_eq!(f, p(&["a"])),
        _ => panic!("no folder"),
    }
    assert!(matches!(chosen_image_entry(5, &p(&[])), ImageMenuChoice::Dismissed));
    assert!(matches!(chosen_image_entry(0, &cur), ImageMenuChoice::Dismissed));
}

#[test]
fn arguments_for_the_file_manager() {
    assert_eq!(explorer_argument(&p(&["a"]), true), "C:\\a");
    assert_eq!(explorer_argument(&p(&["a", "b.jpg"]), false), "/select,C:\\a\\b.jpg");
}

#[test]
fn default_shortcuts_are_reachable() {
    let m = ShortcutManager::new();
    let all = [
        (VK_RIGHT, false, Action::NextImage),
        (VK_LEFT, false, Action::PreviousImage),
        (VK_OEM_PLUS, false, Action::ZoomIn),
        (VK_OEM_MINUS, false, Action::ZoomOut),
        (VK_F, false, Action::FitToScreen),
        (VK_F, true, Action::ActualSize),
        (VK_F11, false, Action::Fullscreen),
        (VK_T, true, Action::ToggleThumbPanel),
        (VK_E, true, Action::ToggleTreePanel),
        (VK_OEM_COMMA, true, Action::ShowSettings),
        (VK_DELETE, false, Action::DeleteCurrent),
    ];
    for (key, ctrl, action) in all {
        assert_eq!(m.dispatch(key, ctrl), Some(action));
    }
    assert_eq!(m.dispatch(VK_T, false), None);
    assert_eq!(m.dispatch(VK_RIGHT, true), None);
    assert_eq!(m.dispatch(VK_CONTROL, true), None);
}

#[test]
fn labels_of_the_bars() {
    assert_eq!(image_count_label(0), "0 images");
    assert_eq!(image_count_label(1), "1 image");
    assert_eq!(image_count_label(12), "12 images");
    assert_eq!(position_label(0, 0), "0/0");
    assert_eq!(position_label(4, 9), "5/9");
    assert_eq!(bar_name(Some(&p(&["a", "b.jpg"]))), "b.jpg");
    assert_eq!(bar_name(None), "—");
    assert_eq!(bar_name(Some(&p(&[]))), "—");
    assert_eq!(fullscreen_label(true), "Exit");
    assert_eq!(fullscreen_label(false), "Fullscreen");
}

#[test]
fn thumbnails_around_the_view() {
    assert_eq!(thumb_window(0, 4, 100), (0, 14));
    assert_eq!(thumb_window(20, 24, 100), (15, 34));
    assert_eq!(thumb_window(90, 95, 100), (85, 100));
    assert_eq!(thumb_window(3, 200, 100), (0, 100));
    assert_eq!(thumb_window(0, 0, 10), (0, 10));
    assert_eq!(thumb_window(0, usize::MAX, 0), (0, 0));
}

#[test]
fn panels_at_the_start() {
    let t = TitleBar::new("Aperture".to_string());
    assert_eq!((t.title.as_str(), t.show_settings), ("Aperture", false));
    let s = Settings::default();
    assert_eq!((s.max_decode_dimension, s.thumbnail_size), (7680, 200));
    assert!(s.enable_animations && s.enable_gpu_decode && s.auto_fit_on_load);
    let mut panel = SettingsPanel::new();
    assert!(panel.labels().is_empty());
    panel.visible = true;
    panel.settings.enable_animations = false;
    assert_eq!(
        panel.labels(),
        vec![
            "Max decode dim: 7680 px",
            "Thumbnail size: 200 px",
            "GPU decode (WIC DXVA): ✓",
            "Animations: ✗",
        ]
    );
}

#[test]
fn the_simple_tree_panel() {
    let mut t = TreePanel::new();
    let names: Vec<&str> = t.roots.iter().map(|r| r.name.as_str()).collect();
    assert_eq!(names, vec!["收藏夹", "最近访问", "此电脑"]);
    assert!(t.roots[0].expanded && !t.roots[1].expanded);
    assert_eq!((t.roots[0].arrow(), t.roots[0].icon()), ("", "📁"));
    assert!(!t.is_selected(&FilePath::empty()));
    t.clicked(1);
    assert!(t.is_selected(&FilePath::empty()));
}

#[test]
fn colors_of_the_themes() {
    assert_eq!(palette_for(ThemeSetting::Dark), dark_palette());
    assert_eq!(palette_for(ThemeSetting::Light), light_palette());
    let d = dark_palette();
    assert_eq!((d.panel_bg.r, d.panel_bg.g, d.panel_bg.b, d.panel_bg.a), (15, 16, 17, 255));
    assert_eq!((d.accent.r, d.accent.g, d.accent.b), (0x5e, 0x6a, 0xd2));
    assert_eq!(d.card_stroke.a, 10);
    assert_eq!((d.canvas_clear.r, d.canvas_clear.g, d.canvas_clear.b), (59, 63, 67));
    let l = light_palette();
    assert_eq!((l.text_primary.r, l.text_primary.g, l.text_primary.b), (26, 27, 30));
    assert_eq!(l.d2d_clear.b, 961);
    assert!(system_theme_is_light(Some(1)));
    assert!(!system_theme_is_light(Some(0)));
    assert!(!system_theme_is_light(None));
}

fn speck(cx: u32, cy: u32, sx: u32, sy: u32) -> Option<u8> {
    let h = (cx ^ sx ^ (cy ^ sy)).wrapping_mul(22695477).rotate_left(7);
    let v = (h ^ 0xa3a3a3a3) >> 16;
    if (v & 0xff) > 0xc0 {
        Some(((v >> 8) & 0xff) as u8)
    } else {
        None
    }
}

#[test]
fn grain_is_the_same_in_every_frame() {
    let (sx, sy) = grain_seeds(-12, 40);
    assert_eq!(sx, (-12i64).wrapping_mul(2654435761) as u32);
    assert_eq!(sy, 40 * 40503);
    let r = grain(20, 10, sx, sy, 8);
    let mut want = Vec::new();
    for cy in 0..10 {
        for cx in 0..20 {
            if let Some(g) = speck(cx, cy, sx, sy) {
                want.push((cx, cy, g));
            }
        }
    }
    let got: Vec<(u32, u32, u8)> = r.iter().map(|s| (s.cx, s.cy, s.gray)).collect();
    assert_eq!(got, want);
    assert!(!got.is_empty());
    assert!(grain(20, 10, sx, sy, 0).is_empty());
    assert!(grain(0, 10, sx, sy, 8).is_empty());
}
