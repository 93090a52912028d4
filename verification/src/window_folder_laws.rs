//! What holds of the main window's folders: what the program starts with, how folders are
//! opened, noted and cycled through, and what becomes of the lists.

use vstd::prelude::*;
use crate::actions::{ActionView, ROOT_FAVORITES, ROOT_RECENT};
use crate::effect::EffectView;
use crate::fs::{ListingView, SupportedFormats};
use crate::nav::NavView;
use crate::path::PathView;
use crate::settings::{SettingsView, ThemeSetting};
use crate::viewer::SlideDir;
use crate::window::{launched, LaunchView, SiblingView, WindowView};

verus! {

/// The folder that a file lies in: what is left of its path without its name.
pub open spec fn lies_in(file: PathView, folder: PathView) -> bool {
    &&& file.pieces.len() > 0
    &&& file.pieces.last().part is Normal
    &&& folder.parts() == file.parts().drop_last()
}

proof fn folder_of_a_file(file: PathView, folder: PathView)
    requires
        lies_in(file, folder),
    ensures
        crate::path::has_parent(file.parts()),
        crate::path::parent_of(file) == Some(file.up()),
        crate::window::folder_of(file) == file.up(),
        file.up().same(folder),
{
    crate::path::up_law(file);
    assert(file.parts().last() == file.pieces.last().part.folded());
}

/// Started without an argument, the program opens the folder opened last, with its
/// images and the position on the first, and the panels open. The lists of folders stay
/// as they were.
pub proof fn start_opens_the_last_folder(settings: SettingsView, listing: ListingView, f: PathView)
    requires
        settings.last_folder == Some(f),
        listing is Entries,
    ensures
        ({
            let w = launched(LaunchView::NoTarget, settings, listing);
            &&& crate::window::launch_folder_of(LaunchView::NoTarget, settings) == Some(f)
            &&& w.nav.folder == Some(f)
            &&& w.nav.items == crate::nav::items_of(crate::fs::listed_images(listing))
            &&& w.nav.index == 0
            &&& w.initial_folder == Some(f)
            &&& w.settings.last_folder == Some(f)
            &&& w.settings.recent == settings.recent
            &&& w.settings.favorites == settings.favorites
            &&& w.show_tree && w.show_thumbs
            &&& w.single_image is None
        }),
{
}

/// Without a folder opened last, or where that is gone, the program starts without one.
pub proof fn start_without_a_folder(settings: SettingsView, listing: ListingView)
    requires
        settings.last_folder is None || listing is NotADirectory,
    ensures
        ({
            let w = launched(LaunchView::NoTarget, settings, listing);
            &&& w.nav.folder is None
            &&& w.nav.items.len() == 0
            &&& settings.last_folder is None ==> w.initial_folder is None
            &&& listing is NotADirectory ==> w.initial_folder is None
            &&& w.settings.last_folder == settings.last_folder
            &&& w.settings.recent == settings.recent
            &&& w.show_tree && w.show_thumbs
        }),
{
}

/// Started on a folder, the program opens that folder, with its images and the position
/// on the first. It is the folder opened last, and the first of the recent ones if it
/// has images.
pub proof fn start_opens_the_given_folder(settings: SettingsView, listing: ListingView, f: PathView)
    requires
        listing !is Unreadable,
    ensures
        ({
            let w = launched(LaunchView::Folder(f), settings, listing);
            &&& crate::window::launch_folder_of(LaunchView::Folder(f), settings) == Some(f)
            &&& w.nav.folder == Some(f)
            &&& w.nav.items == crate::nav::items_of(crate::fs::listed_images(listing))
            &&& w.nav.index == 0
            &&& w.initial_folder == Some(f)
            &&& w.settings.last_folder == Some(f)
            &&& crate::fs::has_images(listing) ==> w.settings.recent.len() > 0
                && w.settings.recent[0] == f
            &&& !crate::fs::has_images(listing) ==> w.settings.recent == settings.recent
            &&& w.settings.favorites == settings.favorites
            &&& w.show_tree && w.show_thumbs
            &&& w.single_image is None
        }),
{
    crate::settings::fronted_law(settings.recent, f, 10);
}

/// Started on an image, the program opens the image's folder with that image as the
/// current one, where it is listed, and without the panels. The folder is noted.
pub proof fn start_shows_the_given_image(
    settings: SettingsView,
    listing: ListingView,
    file: PathView,
    folder: PathView,
    width: u32,
    height: u32,
    k: int,
)
    requires
        lies_in(file, folder),
        listing is Entries,
        ({
            let items = crate::nav::items_of(crate::fs::listed_images(listing));
            0 <= k < items.len() && items[k].path.same(file)
        }),
    ensures
        ({
            let target = LaunchView::SingleImage { path: file, width, height };
            let w = launched(target, settings, listing);
            &&& crate::window::launch_folder_of(target, settings) == Some(file.up())
            &&& w.nav.folder == Some(file.up())
            &&& file.up().same(folder)
            &&& w.nav.current() is Some
            &&& w.nav.current()->0.path.same(file)
            &&& w.nav.items == crate::nav::items_of(crate::fs::listed_images(listing))
            &&& !w.show_tree && !w.show_thumbs
            &&& w.single_image == Some((width, height))
            &&& w.settings.last_folder == Some(file.up())
            &&& w.initial_folder == Some(file.up())
        }),
{
    folder_of_a_file(file, folder);
    let items = crate::nav::items_of(crate::fs::listed_images(listing));
    let f = crate::window::item_of(file);
    crate::seqs::first_where_is(items, f);
    assert(f(items[k]));
}

/// The window at the start is not on a full screen, has nothing open or dragged, and
/// nothing to carry out; its theme is the saved one and its size the saved or the usual
/// one.
pub proof fn start_is_quiet(target: LaunchView, settings: SettingsView, listing: ListingView)
    ensures
        ({
            let w = launched(target, settings, listing);
            &&& !w.fullscreen && !w.help && !w.panning && w.drag is None && w.hover is None
            &&& w.queue.len() == 0
            &&& w.last_click is None && w.arrows.held is None
            &&& w.theme == ThemeSetting::Light <==> settings.theme == Some("light"@)
            &&& settings.window_size is Some ==> w.settings.window_size == settings.window_size
            &&& settings.window_size is None ==> w.settings.window_size == Some((1280u32, 800u32))
            &&& w.settings.theme == settings.theme
            &&& w.settings.favorites == settings.favorites
            &&& w.visuals is None
        }),
{
}

/// What is asked for once a folder has been opened: the settings are saved, the caches
/// emptied and the image is asked for, which shows without a slide.
pub open spec fn asks_for_the_first_image(todo: Seq<EffectView>) -> bool {
    &&& todo.contains(EffectView::SaveSettings)
    &&& todo.contains(EffectView::ClearCaches)
    &&& todo.contains(EffectView::RequestCurrent(SlideDir::NoSlide))
    &&& todo.contains(EffectView::Redraw)
    &&& todo.len() == 4
}

/// A folder with images that is gone to shows its images from the first, and becomes the
/// last and the most recent folder; the favorites, the panels and the theme stay.
pub proof fn entering_a_folder(w: WindowView, folder: PathView, listing: ListingView)
    requires
        crate::fs::has_images(listing),
        !w.nav.is_open(folder),
    ensures
        ({
            let o = w.folder_entered(folder, listing);
            &&& o.state.nav.folder == Some(folder)
            &&& o.state.nav.index == 0
            &&& o.state.nav.items == crate::nav::items_of(crate::fs::listed_images(listing))
            &&& o.state.settings.last_folder == Some(folder)
            &&& o.state.settings.recent.len() > 0 && o.state.settings.recent[0] == folder
            &&& o.state == (WindowView {
                nav: o.state.nav,
                settings: SettingsView {
                    last_folder: o.state.settings.last_folder,
                    recent: o.state.settings.recent,
                    ..w.settings
                },
                ..w
            })
            &&& asks_for_the_first_image(o.todo)
        }),
{
    crate::settings::fronted_law(w.settings.recent, folder, 10);
    let t = w.folder_entered(folder, listing).todo;
    assert(t[0] == EffectView::SaveSettings && t[1] == EffectView::ClearCaches);
    assert(t[2] == EffectView::RequestCurrent(SlideDir::NoSlide) && t[3] == EffectView::Redraw);
}

/// A folder that the user chose is opened even without images, and is then the last one
/// but not among the recent ones. One that cannot be read is not opened, and nothing is
/// asked for.
pub proof fn picking_a_folder(w: WindowView, folder: PathView, listing: ListingView)
    requires
        !w.nav.is_open(folder),
    ensures
        ({
            let o = w.folder_picked(folder, listing);
            &&& listing is Unreadable ==> {
                &&& o.todo.len() == 0
                &&& o.state.settings == w.settings
                &&& o.state.nav.folder == w.nav.folder && o.state.nav.items == w.nav.items
                &&& o.state.nav.index == w.nav.index
            }
            &&& listing !is Unreadable ==> {
                &&& o.state.nav.folder == Some(folder)
                &&& o.state.nav.index == 0
                &&& o.state.nav.items == crate::nav::items_of(crate::fs::listed_images(listing))
                &&& o.state.settings.last_folder == Some(folder)
                &&& crate::fs::has_images(listing) ==> o.state.settings.recent.len() > 0
                    && o.state.settings.recent[0] == folder
                &&& !crate::fs::has_images(listing) ==> o.state.settings.recent
                    == w.settings.recent
                &&& o.state.settings.favorites == w.settings.favorites
                &&& asks_for_the_first_image(o.todo)
            }
        }),
{
    crate::settings::fronted_law(w.settings.recent, folder, 10);
    let t = w.folder_picked(folder, listing).todo;
    if listing !is Unreadable {
        assert(t[0] == EffectView::SaveSettings && t[1] == EffectView::ClearCaches);
        assert(t[2] == EffectView::RequestCurrent(SlideDir::NoSlide) && t[3]
            == EffectView::Redraw);
    }
}

/// A file dropped on the window opens in its folder, with both panels, if it is an image;
/// a folder opens as one; anything else is ignored.
pub proof fn dropping_a_file(w: WindowView, path: PathView, folder: PathView)
    ensures
        w.dropped(path, true).todo == seq![EffectView::OpenFolder(path)],
        w.dropped(path, true).state == w,
        lies_in(path, folder) && SupportedFormats::supports(path.parts()) ==> {
            let o = w.dropped(path, false);
            &&& o.todo == seq![EffectView::OpenFile { folder: path.up(), file: path }]
            &&& path.up().same(folder)
            &&& o.state == (WindowView { show_tree: true, show_thumbs: true, ..w })
        },
        !SupportedFormats::supports(path.parts()) ==> w.dropped(path, false).todo.len() == 0
            && w.dropped(path, false).state == w,
{
    if lies_in(path, folder) {
        folder_of_a_file(path, folder);
    }
}

/// A dropped image is the current one once its folder is open, wherever it stands there.
pub proof fn dropped_image_is_selected(
    w: WindowView,
    folder: PathView,
    file: PathView,
    listing: ListingView,
    k: int,
)
    requires
        w.nav.is_open(folder) || listing !is Unreadable,
        ({
            let items = w.nav.opened(folder, listing).items;
            0 <= k < items.len() && items[k].path.same(file)
        }),
    ensures
        ({
            let o = w.file_opened(folder, file, listing);
            &&& o.state.nav.is_open(folder)
            &&& o.state.nav.current() is Some
            &&& o.state.nav.current()->0.path.same(file)
            &&& o.state.settings.last_folder == Some(folder)
            &&& asks_for_the_first_image(o.todo)
        }),
{
    let items = w.nav.opened(folder, listing).items;
    let f = crate::window::item_of(file);
    crate::seqs::first_where_is(items, f);
    assert(f(items[k]));
    let t = w.file_opened(folder, file, listing).todo;
    assert(t[0] == EffectView::SaveSettings && t[1] == EffectView::ClearCaches);
    assert(t[2] == EffectView::RequestCurrent(SlideDir::NoSlide) && t[3] == EffectView::Redraw);
}

/// A folder of a list so many places on from the position of another, round the ends.
proof fn cycled_from(list: Seq<PathView>, folder: PathView, dir: int, i: int)
    requires
        crate::settings::distinct_folders(list),
        0 <= i < list.len(),
        list[i].same(folder),
    ensures
        crate::window::cycled(list, folder, dir) == list[(i + dir) % list.len() as int],
{
    let f = crate::window::is_folder(folder);
    assert(f(list[i]));
    assert forall|j: int| 0 <= j < i implies !f(#[trigger] list[j]) by {
        assert(!list[j].same(list[i]));
    }
    crate::seqs::first_where_unique(list, f, i);
}

/// Cycling asks for a folder of the list that the open folder was chosen from, so many
/// places on from the current image's folder, round the ends. A folder chosen among the
/// favorites cycles through the favorites.
pub proof fn favorites_are_cycled(
    w: WindowView,
    dir: int,
    siblings: Seq<SiblingView>,
    folder: PathView,
    i: int,
)
    requires
        w.nav.current() is Some,
        lies_in(w.nav.current()->0.path, folder),
        w.active_root == ROOT_FAVORITES,
        w.settings.favorites.len() >= 2,
    ensures
        ({
            let o = w.folder_cycled(dir, siblings);
            &&& o.state == w
            &&& o.todo.len() == 1
            &&& match o.todo[0] {
                EffectView::OpenFolder(f) => {
                    &&& w.settings.favorites.contains(f)
                    &&& crate::settings::distinct_folders(w.settings.favorites) && 0 <= i
                        < w.settings.favorites.len() && w.settings.favorites[i].same(folder) ==> f
                        == w.settings.favorites[(i + dir) % w.settings.favorites.len() as int]
                },
                _ => false,
            }
        }),
{
    cycle_in_a_list(w, dir, siblings, folder, w.settings.favorites, i);
}

/// A folder chosen among the recent ones cycles through the recent ones.
pub proof fn recent_folders_are_cycled(
    w: WindowView,
    dir: int,
    siblings: Seq<SiblingView>,
    folder: PathView,
    i: int,
)
    requires
        w.nav.current() is Some,
        lies_in(w.nav.current()->0.path, folder),
        w.active_root == ROOT_RECENT,
        w.settings.recent.len() >= 2,
    ensures
        ({
            let o = w.folder_cycled(dir, siblings);
            &&& o.state == w
            &&& o.todo.len() == 1
            &&& match o.todo[0] {
                EffectView::OpenFolder(f) => {
                    &&& w.settings.recent.contains(f)
                    &&& crate::settings::distinct_folders(w.settings.recent) && 0 <= i
                        < w.settings.recent.len() && w.settings.recent[i].same(folder) ==> f
                        == w.settings.recent[(i + dir) % w.settings.recent.len() as int]
                },
                _ => false,
            }
        }),
{
    cycle_in_a_list(w, dir, siblings, folder, w.settings.recent, i);
}

proof fn cycle_in_a_list(
    w: WindowView,
    dir: int,
    siblings: Seq<SiblingView>,
    folder: PathView,
    list: Seq<PathView>,
    i: int,
)
    requires
        w.nav.current() is Some,
        lies_in(w.nav.current()->0.path, folder),
        list == w.cycle_list(siblings),
        list.len() >= 2,
    ensures
        ({
            let f = crate::window::cycled(
                list,
                crate::window::folder_of(w.nav.current()->0.path),
                dir,
            );
            &&& w.folder_cycled(dir, siblings) == w.doing(seq![EffectView::OpenFolder(f)])
            &&& list.contains(f)
            &&& crate::settings::distinct_folders(list) && 0 <= i < list.len() && list[i].same(
                folder,
            ) ==> f == list[(i + dir) % list.len() as int]
        }),
{
    let path = w.nav.current()->0.path;
    folder_of_a_file(path, folder);
    crate::window_laws::cycling_goes_round(list, path.up(), dir);
    if crate::settings::distinct_folders(list) && 0 <= i < list.len() && list[i].same(folder) {
        cycled_from(list, path.up(), dir, i);
    }
}

/// A folder is one of those beside the current one, and has images.
pub open spec fn is_sibling_with_images(siblings: Seq<SiblingView>, f: PathView) -> bool {
    exists|k: int|
        0 <= k < siblings.len() && (#[trigger] siblings[k]).path == f && crate::fs::has_images(
            siblings[k].listing,
        )
}

/// The folders beside the current one that are cycled through are all those with images,
/// and no others, in ascending order.
pub proof fn siblings_with_images(siblings: Seq<SiblingView>, f: PathView)
    ensures
        crate::window::with_images(siblings).contains(f) <==> is_sibling_with_images(siblings, f),
        crate::sort::ascending::<crate::path::FilePath>(crate::window::with_images(siblings)),
{
    broadcast use vstd::seq_lib::group_to_multiset_ensures;

    let p = |s: SiblingView| crate::fs::has_images(s.listing);
    let g = |s: SiblingView| s.path;
    let kept = siblings.filter(p);
    let paths = kept.map_values(g);
    let r = crate::window::with_images(siblings);
    crate::seqs::filter_keeps_members(siblings, p);
    crate::sort::stable_sort_law::<crate::path::FilePath>(paths);
    if r.contains(f) {
        assert(r.to_multiset().contains(f));
        assert(paths.to_multiset().contains(f));
        let k = choose|k: int| 0 <= k < paths.len() && paths[k] == f;
        assert(kept.contains(kept[k]));
        assert(siblings.contains(kept[k]));
        let i = choose|i: int| 0 <= i < siblings.len() && siblings[i] == kept[k];
        assert(siblings[i].path == f);
    }
    if is_sibling_with_images(siblings, f) {
        let i = choose|i: int|
            0 <= i < siblings.len() && (#[trigger] siblings[i]).path == f && crate::fs::has_images(
                siblings[i].listing,
            );
        assert(siblings.contains(siblings[i]));
        assert(kept.contains(siblings[i]));
        let k = choose|k: int| 0 <= k < kept.len() && kept[k] == siblings[i];
        assert(paths[k] == f);
        assert(paths.to_multiset().contains(f));
        assert(r.to_multiset().contains(f));
    }
}

/// A folder chosen elsewhere cycles through the folders beside it that have images.
pub proof fn siblings_are_cycled(
    w: WindowView,
    dir: int,
    siblings: Seq<SiblingView>,
    folder: PathView,
    i: int,
)
    requires
        w.nav.current() is Some,
        lies_in(w.nav.current()->0.path, folder),
        w.active_root != ROOT_FAVORITES,
        w.active_root != ROOT_RECENT,
        crate::window::with_images(siblings).len() >= 2,
    ensures
        ({
            let o = w.folder_cycled(dir, siblings);
            let list = crate::window::with_images(siblings);
            &&& o.state == w
            &&& o.todo.len() == 1
            &&& match o.todo[0] {
                EffectView::OpenFolder(f) => {
                    &&& is_sibling_with_images(siblings, f)
                    &&& crate::settings::distinct_folders(list) && 0 <= i < list.len()
                        && list[i].same(folder) ==> f == list[(i + dir) % list.len() as int]
                },
                _ => false,
            }
        }),
{
    let list = crate::window::with_images(siblings);
    cycle_in_a_list(w, dir, siblings, folder, list, i);
    siblings_with_images(
        siblings,
        crate::window::cycled(list, crate::window::folder_of(w.nav.current()->0.path), dir),
    );
}

/// With fewer than two folders to choose from, or without an image, cycling does nothing.
pub proof fn nothing_to_cycle(w: WindowView, dir: int, siblings: Seq<SiblingView>)
    requires
        w.nav.current() is None || (w.active_root == ROOT_FAVORITES && w.settings.favorites.len()
            < 2) || (w.active_root == ROOT_RECENT && w.settings.recent.len() < 2),
    ensures
        w.folder_cycled(dir, siblings).state == w,
        w.folder_cycled(dir, siblings).todo.len() == 0,
{
}

/// The current folder becomes a favorite, or stops being one; the lists change in no
/// other way, and the settings are saved. Without an image nothing happens.
pub proof fn favorite_is_toggled(w: WindowView, now: u64, folder: PathView, other: PathView)
    requires
        w.nav.current() is Some,
        w.nav.folder == Some(folder),
        w.settings.favorites.len() <= 20,
        !other.same(folder),
    ensures
        ({
            let o = w.acted(ActionView::ToggleFavorite, now);
            let before = w.settings.favorites;
            let after = o.state.settings.favorites;
            &&& crate::settings::holds(after, folder) == !crate::settings::holds(before, folder)
            &&& crate::settings::holds(before, folder) || before.len() < 20 ==> (after.contains(
                other,
            ) <==> before.contains(other))
            &&& o.state == (WindowView {
                settings: SettingsView { favorites: after, ..w.settings },
                ..w
            })
            &&& o.todo == seq![EffectView::SaveSettings]
        }),
{
    crate::settings::toggled_law(w.settings.favorites, folder, 20);
    crate::settings::toggling_leaves_the_others(w.settings.favorites, folder, 20, other);
}

/// Adding a favorite puts it in front; removing one takes off that one alone; removing a
/// recent folder takes off that one alone. Each saves the settings and changes nothing
/// else.
pub proof fn lists_are_changed(w: WindowView, now: u64, p: PathView, other: PathView)
    requires
        !other.same(p),
    ensures
        ({
            let add = w.acted(ActionView::AddFavorite(p), now);
            let remove = w.acted(ActionView::RemoveFavorite(p), now);
            let forget = w.acted(ActionView::RemoveRecent(p), now);
            &&& add.state.settings.favorites.len() > 0 && add.state.settings.favorites[0] == p
            &&& w.settings.favorites.len() < 20 && w.settings.favorites.contains(other)
                ==> add.state.settings.favorites.contains(other)
            &&& add.state.settings.recent == w.settings.recent
            &&& !crate::settings::holds(remove.state.settings.favorites, p)
            &&& remove.state.settings.favorites.contains(other)
                <==> w.settings.favorites.contains(other)
            &&& remove.state.settings.recent == w.settings.recent
            &&& !crate::settings::holds(forget.state.settings.recent, p)
            &&& forget.state.settings.recent.contains(other) <==> w.settings.recent.contains(
                other,
            )
            &&& forget.state.settings.favorites == w.settings.favorites
            &&& add.todo == seq![EffectView::SaveSettings]
            &&& remove.todo == seq![EffectView::SaveSettings]
            &&& forget.todo == seq![EffectView::SaveSettings]
            &&& add.state == (WindowView {
                settings: SettingsView {
                    favorites: add.state.settings.favorites,
                    ..w.settings
                },
                ..w
            })
            &&& remove.state == (WindowView {
                settings: SettingsView {
                    favorites: remove.state.settings.favorites,
                    ..w.settings
                },
                ..w
            })
            &&& forget.state == (WindowView {
                settings: SettingsView { recent: forget.state.settings.recent, ..w.settings },
                ..w
            })
        }),
{
    crate::settings::fronted_law(w.settings.favorites, p, 20);
    crate::settings::removal_leaves_the_others(w.settings.favorites, p, other);
    crate::settings::removal_leaves_the_others(w.settings.recent, p, other);
}

/// Folders chosen in the tree or a menu are opened as they are; the tree root that one
/// was chosen from is remembered. The dialog for a folder starts from the last one, or
/// else from the first drive.
pub proof fn folders_are_asked_for(w: WindowView, now: u64, p: PathView, root: usize)
    ensures
        w.acted(ActionView::FolderChosen(p, root), now).todo == seq![EffectView::OpenFolder(p)],
        w.acted(ActionView::FolderChosen(p, root), now).state == (WindowView {
            active_root: root,
            ..w
        }),
        w.acted(ActionView::BrowseFolder(p), now).todo == seq![EffectView::OpenFolder(p)],
        w.acted(ActionView::BrowseFolder(p), now).state == w,
        w.acted(ActionView::RevealInExplorer(p), now).todo
            == seq![EffectView::RevealInExplorer(p)],
        w.acted(ActionView::RevealInExplorer(p), now).state == w,
        w.acted(ActionView::RevealInTree(p), now).todo.len() == 0,
        w.acted(ActionView::RevealInTree(p), now).state == w,
        w.settings.last_folder == Some(p) ==> w.acted(ActionView::OpenFolder, now).todo
            == seq![EffectView::PickFolder(p)],
        w.settings.last_folder is None ==> w.acted(ActionView::OpenFolder, now).todo
            == seq![EffectView::PickFolder(PathView::drive_root("C:"@))],
        w.acted(ActionView::OpenFolder, now).state == w,
        w.settings.last_folder == Some(p) ==> w.named_folder() == Some(p),
        w.settings.last_folder is None ==> w.named_folder() == w.initial_folder,
{
}

/// The program's argument: a file of a supported format is shown by itself, in the size
/// that is known of it or else the usual one; anything else is taken for a folder.
pub proof fn arguments_are_targets(p: PathView, is_file: bool, size: Option<(u32, u32)>)
    ensures
        crate::window::target_of(None, is_file, size) == LaunchView::NoTarget,
        crate::window::target_of(Some(p), false, size) == LaunchView::Folder(p),
        !SupportedFormats::supports(p.parts()) ==> crate::window::target_of(Some(p), is_file, size)
            == LaunchView::Folder(p),
        SupportedFormats::supports(p.parts()) ==> match size {
            Some((w, h)) => crate::window::target_of(Some(p), true, size)
                == (LaunchView::SingleImage { path: p, width: w, height: h }),
            None => crate::window::target_of(Some(p), true, size) == (LaunchView::SingleImage {
                path: p,
                width: 1280,
                height: 800,
            }),
        },
{
}

/// The viewer has the room that the panels and the bars leave in the window at the start;
/// the drives are the root that folders are cycled in.
pub proof fn start_lays_the_viewer_out(
    target: LaunchView,
    settings: SettingsView,
    listing: ListingView,
)
    ensures
        ({
            let w = launched(target, settings, listing);
            let size = match settings.window_size {
                Some(s) => s,
                None => (1280u32, 800u32),
            };
            &&& size.0 > 460 ==> w.viewport.0 + 460 == size.0
            &&& size.0 <= 460 ==> w.viewport.0 == 0
            &&& size.1 > 88 ==> w.viewport.1 + 88 == size.1
            &&& size.1 <= 88 ==> w.viewport.1 == 0
            &&& w.active_root == crate::actions::ROOT_THIS_PC
            &&& w.last_thumb == 0
            &&& w.chrome
            &&& w.chrome_at is None
        }),
{
}

/// Where the current folder is not on the list, cycling counts from the list's first
/// folder, round the ends.
pub proof fn cycling_from_elsewhere(list: Seq<PathView>, folder: PathView, dir: int)
    requires
        list.len() > 0,
        !crate::settings::holds(list, folder),
    ensures
        crate::window::cycled(list, folder, dir) == list[dir % list.len() as int],
        crate::window::cycled(list, folder, 0) == list[0],
{
    let f = crate::window::is_folder(folder);
    crate::seqs::first_where_is(list, f);
    let at = crate::seqs::first_where(list, f);
    if at < list.len() {
        assert(list[at].same(folder));
    }
    let n = list.len() as int;
    assert(0int % n == 0) by (nonlinear_arith)
        requires
            n > 0,
    ;
}

/// For cycling, the folder above the current image's folder is looked at, unless that is
/// cycled in one of the two lists, or there is no image.
pub proof fn folder_above_is_scanned(w: WindowView, folder: PathView, above: PathView)
    ensures
        w.nav.current() matches Some(it) ==> (w.active_root >= 2 && lies_in(it.path, folder)
            && lies_in(folder, above) ==> w.scanned_parent() is Some && w.scanned_parent()->0.same(
            above,
        )),
        w.active_root == 0 || w.active_root == 1 || w.nav.current() is None
            ==> w.scanned_parent() is None,
{
    if let Some(it) = w.nav.current() {
        if lies_in(it.path, folder) && lies_in(folder, above) {
            folder_of_a_file(it.path, folder);
            let f = it.path.up();
            assert(f.parts() == folder.parts());
            assert(f.parts().last() == folder.parts().last());
            assert(folder.parts().last() == folder.pieces.last().part.folded());
            assert(f.pieces.len() == f.parts().len() && folder.pieces.len() == folder.parts().len());
            assert(f.parts().last() == f.pieces.last().part.folded());
            assert(f.pieces.last().part is Normal);
            crate::path::up_law(f);
        }
    }
}

/// A tree that shows the settings has the favorites under its first root and the recent
/// folders under its second, each in their order.
pub proof fn tree_shows_the_lists(t: crate::file_tree::FileTree, settings: SettingsView, i: int)
    requires
        crate::window::tree_shows(t, settings),
    ensures
        ({
            let favorites = t.roots@[0].children;
            let recent = t.roots@[1].children;
            &&& t.roots@.len() == 3
            &&& favorites is Some && favorites->0@.len() == settings.favorites.len()
            &&& recent is Some && recent->0@.len() == settings.recent.len()
            &&& 0 <= i < settings.favorites.len() ==> favorites->0@[i].path@
                == settings.favorites[i]
            &&& 0 <= i < settings.recent.len() ==> recent->0@[i].path@ == settings.recent[i]
        }),
{
    let favorites = t.roots@[0].children->0@;
    let recent = t.roots@[1].children->0@;
    if 0 <= i < settings.favorites.len() {
        crate::file_tree::listed_folders_are_shown(favorites, settings.favorites, i);
    }
    if 0 <= i < settings.recent.len() {
        crate::file_tree::listed_folders_are_shown(recent, settings.recent, i);
    }
}

} // verus!
