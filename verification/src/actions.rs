//! What the user can ask of the program.

use vstd::prelude::*;
use crate::path::{FilePath, PathView};

verus! {

/// The tree root of the favorite folders.
pub const ROOT_FAVORITES: usize = 0;

/// The tree root of the recent folders.
pub const ROOT_RECENT: usize = 1;

/// The tree root of the drives.
pub const ROOT_THIS_PC: usize = 2;

/// Something the user asked for.
#[derive(Debug)]
pub enum UiAction {
    OpenFolder,
    Prev,
    Next,
    Fit,
    OneToOne,
    ToggleFullscreen,
    ToggleTree,
    ToggleThumbs,
    /// A thumbnail was clicked.
    ThumbClicked(usize),
    /// A folder of a tree root was clicked.
    FolderChosen(FilePath, usize),
    ToggleShortcutHelp,
    /// The current folder becomes a favorite, or stops being one.
    ToggleFavorite,
    AddFavorite(FilePath),
    RemoveFavorite(FilePath),
    RemoveRecent(FilePath),
    /// Show a folder in the system's file manager.
    RevealInExplorer(FilePath),
    /// Open a folder in the viewer.
    BrowseFolder(FilePath),
    /// Show a folder in the tree.
    RevealInTree(FilePath),
    ExitApp,
    MinimizeWindow,
    ToggleMaximize,
    ToggleTheme,
    SetWallpaper,
    OpenInExplorer,
}

/// The mathematical counterpart of [`UiAction`].
pub enum ActionView {
    OpenFolder,
    Prev,
    Next,
    Fit,
    OneToOne,
    ToggleFullscreen,
    ToggleTree,
    ToggleThumbs,
    ThumbClicked(usize),
    FolderChosen(PathView, usize),
    ToggleShortcutHelp,
    ToggleFavorite,
    AddFavorite(PathView),
    RemoveFavorite(PathView),
    RemoveRecent(PathView),
    RevealInExplorer(PathView),
    BrowseFolder(PathView),
    RevealInTree(PathView),
    ExitApp,
    MinimizeWindow,
    ToggleMaximize,
    ToggleTheme,
    SetWallpaper,
    OpenInExplorer,
}

impl View for UiAction {
    type V = ActionView;

    open spec fn view(&self) -> ActionView {
        match self {
            UiAction::OpenFolder => ActionView::OpenFolder,
            UiAction::Prev => ActionView::Prev,
            UiAction::Next => ActionView::Next,
            UiAction::Fit => ActionView::Fit,
            UiAction::OneToOne => ActionView::OneToOne,
            UiAction::ToggleFullscreen => ActionView::ToggleFullscreen,
            UiAction::ToggleTree => ActionView::ToggleTree,
            UiAction::ToggleThumbs => ActionView::ToggleThumbs,
            UiAction::ThumbClicked(i) => ActionView::ThumbClicked(*i),
            UiAction::FolderChosen(p, r) => ActionView::FolderChosen(p@, *r),
            UiAction::ToggleShortcutHelp => ActionView::ToggleShortcutHelp,
            UiAction::ToggleFavorite => ActionView::ToggleFavorite,
            UiAction::AddFavorite(p) => ActionView::AddFavorite(p@),
            UiAction::RemoveFavorite(p) => ActionView::RemoveFavorite(p@),
            UiAction::RemoveRecent(p) => ActionView::RemoveRecent(p@),
            UiAction::RevealInExplorer(p) => ActionView::RevealInExplorer(p@),
            UiAction::BrowseFolder(p) => ActionView::BrowseFolder(p@),
            UiAction::RevealInTree(p) => ActionView::RevealInTree(p@),
            UiAction::ExitApp => ActionView::ExitApp,
            UiAction::MinimizeWindow => ActionView::MinimizeWindow,
            UiAction::ToggleMaximize => ActionView::ToggleMaximize,
            UiAction::ToggleTheme => ActionView::ToggleTheme,
            UiAction::SetWallpaper => ActionView::SetWallpaper,
            UiAction::OpenInExplorer => ActionView::OpenInExplorer,
        }
    }
}

impl ActionView {
    /// The action changes the lists of folders.
    pub open spec fn changes_lists(self) -> bool {
        self is ToggleFavorite || self is AddFavorite || self is RemoveFavorite
            || self is RemoveRecent
    }

    /// The action changes what the window shows.
    pub open spec fn changes_window(self) -> bool {
        self is Prev || self is Next || self is ToggleFullscreen || self is ToggleTree
            || self is ToggleThumbs || self is ThumbClicked || self is FolderChosen
            || self is ToggleShortcutHelp || self is ToggleTheme
    }

    /// The action only asks the program to do something.
    pub open spec fn only_asks(self) -> bool {
        !self.changes_lists() && !self.changes_window() && self !is RevealInTree
    }
}

/// One entry of a menu for a tree node: its number and its text.
#[derive(Debug)]
pub struct MenuItem {
    pub id: u32,
    pub text: &'static str,
}

/// The numbers of the entries of the tree menu.
pub const ID_OPEN_EXPLORER: u32 = 1;

pub const ID_BROWSE: u32 = 2;

pub const ID_ADD_FAVORITE: u32 = 3;

pub const ID_REMOVE_FAVORITE: u32 = 4;

pub const ID_REMOVE_RECENT: u32 = 5;

pub const ID_REVEAL_IN_TREE: u32 = 6;

/// The entries of a menu as numbers and texts.
pub open spec fn menu_of(items: Seq<MenuItem>) -> Seq<(u32, Seq<char>)> {
    Seq::new(items.len(), |i: int| (items[i].id, items[i].text@))
}

/// The menu for a node of the tree: the roots have none. Folders can be shown and
/// opened; a recent one can become a favorite or be dropped; a favorite can stop
/// being one; only folders of the drives are located in the tree.
pub open spec fn tree_menu(root_idx: usize, depth: usize) -> Seq<(u32, Seq<char>)> {
    if depth == 0 {
        Seq::empty()
    } else {
        let common = seq![
            (ID_OPEN_EXPLORER, "在资源管理器中打开"@),
            (ID_BROWSE, "浏览图片"@),
        ];
        if root_idx == ROOT_FAVORITES {
            common.push((ID_REMOVE_FAVORITE, "取消收藏"@))
        } else if root_idx == ROOT_RECENT {
            common.push((ID_ADD_FAVORITE, "添加到收藏"@)).push(
                (ID_REMOVE_RECENT, "从 Recent 移除"@),
            )
        } else if root_idx == ROOT_THIS_PC {
            common.push((ID_REVEAL_IN_TREE, "在目录树中定位"@))
        } else {
            common
        }
    }
}

/// What an entry of the tree menu asks for.
pub open spec fn tree_menu_action(id: u32, path: PathView, root_idx: usize) -> Option<ActionView> {
    if id == ID_OPEN_EXPLORER {
        Some(ActionView::RevealInExplorer(path))
    } else if id == ID_BROWSE {
        Some(ActionView::FolderChosen(path, root_idx))
    } else if id == ID_ADD_FAVORITE {
        Some(ActionView::AddFavorite(path))
    } else if id == ID_REMOVE_FAVORITE {
        Some(ActionView::RemoveFavorite(path))
    } else if id == ID_REMOVE_RECENT {
        Some(ActionView::RemoveRecent(path))
    } else if id == ID_REVEAL_IN_TREE {
        Some(ActionView::RevealInTree(path))
    } else {
        None
    }
}

/// Every entry of a menu asks for something.
pub proof fn tree_menu_answers(root_idx: usize, depth: usize, path: PathView, i: int)
    requires
        0 <= i < tree_menu(root_idx, depth).len(),
    ensures
        tree_menu_action(tree_menu(root_idx, depth)[i].0, path, root_idx) is Some,
{
}

/// Gives the menu for a node of the tree.
pub fn tree_context_menu(root_idx: usize, depth: usize) -> (r: Vec<MenuItem>)
    ensures
        menu_of(r@) == tree_menu(root_idx, depth),
{
    let mut out: Vec<MenuItem> = Vec::new();
    if depth > 0 {
        out.push(MenuItem { id: ID_OPEN_EXPLORER, text: "在资源管理器中打开" });
        out.push(MenuItem { id: ID_BROWSE, text: "浏览图片" });
        if root_idx == ROOT_FAVORITES {
            out.push(MenuItem { id: ID_REMOVE_FAVORITE, text: "取消收藏" });
        }
        if root_idx == ROOT_RECENT {
            out.push(MenuItem { id: ID_ADD_FAVORITE, text: "添加到收藏" });
            out.push(MenuItem { id: ID_REMOVE_RECENT, text: "从 Recent 移除" });
        }
        if root_idx == ROOT_THIS_PC {
            out.push(MenuItem { id: ID_REVEAL_IN_TREE, text: "在目录树中定位" });
        }
    }
    assert(menu_of(out@) =~= tree_menu(root_idx, depth));
    out
}

/// Turns a chosen entry of the tree menu into an action; zero and unknown numbers
/// ask for nothing.
pub fn chosen_tree_entry(id: u32, path: FilePath, root_idx: usize) -> (r: Option<UiAction>)
    ensures
        r.is_some() == tree_menu_action(id, path@, root_idx).is_some(),
        r matches Some(a) ==> Some(a@) == tree_menu_action(id, path@, root_idx),
{
    if id == ID_OPEN_EXPLORER {
        Some(UiAction::RevealInExplorer(path))
    } else if id == ID_BROWSE {
        Some(UiAction::FolderChosen(path, root_idx))
    } else if id == ID_ADD_FAVORITE {
        Some(UiAction::AddFavorite(path))
    } else if id == ID_REMOVE_FAVORITE {
        Some(UiAction::RemoveFavorite(path))
    } else if id == ID_REMOVE_RECENT {
        Some(UiAction::RemoveRecent(path))
    } else if id == ID_REVEAL_IN_TREE {
        Some(UiAction::RevealInTree(path))
    } else {
        None
    }
}

/// What an entry of the image's menu asks for.
#[derive(Debug)]
pub enum ImageMenuChoice {
    /// Copy the image's path to the clipboard.
    CopyPath(String),
    /// Show the image in the system's file manager.
    Explorer,
    /// Print the image.
    Print,
    /// Make the image the wallpaper.
    Wallpaper,
    /// Show the image's folder in the tree.
    Locate(FilePath),
    /// Nothing.
    Dismissed,
}

/// The menu over the image.
pub open spec fn image_menu() -> Seq<(u32, Seq<char>)> {
    seq![
        (1, "复制图片路径"@),
        (2, "在资源管理器中打开"@),
        (3, "打印"@),
        (4, "设为桌面壁纸"@),
        (5, "在目录树中定位"@),
    ]
}

/// Gives the menu over the image.
pub fn image_context_menu() -> (r: Vec<MenuItem>)
    ensures
        menu_of(r@) == image_menu(),
{
    let mut out: Vec<MenuItem> = Vec::new();
    out.push(MenuItem { id: 1, text: "复制图片路径" });
    out.push(MenuItem { id: 2, text: "在资源管理器中打开" });
    out.push(MenuItem { id: 3, text: "打印" });
    out.push(MenuItem { id: 4, text: "设为桌面壁纸" });
    out.push(MenuItem { id: 5, text: "在目录树中定位" });
    assert(menu_of(out@) =~= image_menu());
    out
}

/// Turns a chosen entry of the image's menu into what it asks for.
pub fn chosen_image_entry(id: u32, current: &FilePath) -> (r: ImageMenuChoice)
    ensures
        match r {
            ImageMenuChoice::CopyPath(s) => id == 1 && s@ == current@.text(),
            ImageMenuChoice::Explorer => id == 2,
            ImageMenuChoice::Print => id == 3,
            ImageMenuChoice::Wallpaper => id == 4,
            ImageMenuChoice::Locate(p) => id == 5 && Some(p@) == crate::path::parent_of(current@),
            ImageMenuChoice::Dismissed => id == 0 || id > 5 || (id == 5
                && !crate::path::has_parent(current@.parts())),
        },
{
    if id == 1 {
        ImageMenuChoice::CopyPath(current.display())
    } else if id == 2 {
        ImageMenuChoice::Explorer
    } else if id == 3 {
        ImageMenuChoice::Print
    } else if id == 4 {
        ImageMenuChoice::Wallpaper
    } else if id == 5 {
        match current.parent() {
            Some(p) => ImageMenuChoice::Locate(p),
            None => ImageMenuChoice::Dismissed,
        }
    } else {
        ImageMenuChoice::Dismissed
    }
}

/// The argument that the system's file manager shows a path with.
pub open spec fn explorer_text(path: PathView, is_dir: bool) -> Seq<char> {
    if is_dir {
        path.text()
    } else {
        "/select,"@ + path.text()
    }
}

/// A folder is opened by its path; a file is selected, by its path behind a switch.
pub proof fn explorer_opens_or_selects(path: PathView)
    ensures
        explorer_text(path, true) == path.text(),
        explorer_text(path, false).len() == path.text().len() + 8,
        explorer_text(path, false).take(8) == "/select,"@,
        explorer_text(path, false).skip(8) == path.text(),
{
    reveal_strlit("/select,");
    assert(explorer_text(path, false).take(8) =~= "/select,"@);
    assert(explorer_text(path, false).skip(8) =~= path.text());
}

/// The argument that the system's file manager shows a path with: a folder opens,
/// and a file is selected in its folder.
pub fn explorer_argument(path: &FilePath, is_dir: bool) -> (r: String)
    ensures
        r@ == explorer_text(path@, is_dir),
{
    if is_dir {
        path.display()
    } else {
        let mut out: String = "/select,".to_owned();
        out.append(path.display().as_str());
        out
    }
}

/// A menu has an entry of a number.
pub open spec fn offers(menu: Seq<(u32, Seq<char>)>, id: u32) -> bool {
    exists|i: int| 0 <= i < menu.len() && (#[trigger] menu[i]).0 == id
}

/// What the menus of the tree offer: the roots nothing; every folder to be shown and to be
/// opened; a favorite to stop being one; a recent folder to become a favorite or to be
/// dropped; a folder of the drives to be located.
pub proof fn menus_offer(root: usize, depth: usize, id: u32)
    ensures
        tree_menu(root, 0).len() == 0,
        depth > 0 ==> (offers(tree_menu(root, depth), id) <==> {
            ||| id == 1
            ||| id == 2
            ||| id == 4 && root == 0
            ||| id == 3 && root == 1
            ||| id == 5 && root == 1
            ||| id == 6 && root == 2
        }),
{
    let m = tree_menu(root, depth);
    if depth > 0 {
        assert(m[0].0 == 1 && m[1].0 == 2);
        if root == 0 {
            assert(m.len() == 3 && m[2].0 == 4);
        } else if root == 1 {
            assert(m.len() == 4 && m[2].0 == 3 && m[3].0 == 5);
        } else if root == 2 {
            assert(m.len() == 3 && m[2].0 == 6);
        } else {
            assert(m.len() == 2);
        }
    }
}

/// What each entry of a tree's menu asks for, of the folder it was opened on.
pub proof fn entries_ask(path: PathView, root: usize, id: u32)
    ensures
        tree_menu_action(1, path, root) == Some(ActionView::RevealInExplorer(path)),
        tree_menu_action(2, path, root) == Some(ActionView::FolderChosen(path, root)),
        tree_menu_action(3, path, root) == Some(ActionView::AddFavorite(path)),
        tree_menu_action(4, path, root) == Some(ActionView::RemoveFavorite(path)),
        tree_menu_action(5, path, root) == Some(ActionView::RemoveRecent(path)),
        tree_menu_action(6, path, root) == Some(ActionView::RevealInTree(path)),
        id == 0 || id > 6 ==> tree_menu_action(id, path, root) is None,
{
}

} // verus!
