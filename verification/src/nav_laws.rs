//! What holds of the navigation: where steps lead, what opening a folder shows, and what
//! is remembered of the folders left.

use vstd::prelude::*;
use crate::fs::{EntryView, ListingView, SupportedFormats};
use crate::model::ItemView;
use crate::nav::{NavView, NavigationDirection};
use crate::path::PathView;

verus! {

/// A step goes to the image beside the current one, and from an end of the folder to
/// its other end; first and last go to the ends, and a position beyond the last image
/// means the last one. Nothing but the position changes, and an empty folder has none.
pub proof fn steps_lead_where_they_say(nav: NavView, i: usize)
    requires
        nav.valid(),
    ensures
        ({
            let len = nav.items.len() as int;
            let next = nav.moved(NavigationDirection::Next);
            let previous = nav.moved(NavigationDirection::Previous);
            let first = nav.moved(NavigationDirection::First);
            let last = nav.moved(NavigationDirection::Last);
            let at = nav.moved(NavigationDirection::Index(i));
            &&& len == 0 ==> next == nav && previous == nav && first == nav && last == nav && at
                == nav
            &&& len > 0 ==> {
                &&& nav.index + 1 < len ==> next.index == nav.index + 1
                &&& nav.index + 1 == len ==> next.index == 0
                &&& nav.index > 0 ==> previous.index == nav.index - 1
                &&& nav.index == 0 ==> previous.index == len - 1
                &&& first.index == 0
                &&& last.index == len - 1
                &&& i < len ==> at.index == i
                &&& i >= len ==> at.index == len - 1
            }
        }),
{
    let len = nav.items.len() as int;
    if len > 0 {
        let k = nav.index;
        if k + 1 < len {
            assert((k + 1) % len == k + 1) by (nonlinear_arith)
                requires
                    0 <= k + 1 < len,
            ;
        } else {
            assert((k + 1) % len == 0) by (nonlinear_arith)
                requires
                    k + 1 == len,
                    len > 0,
            ;
        }
        if k == 0 {
            assert((k + len - 1) % len == len - 1) by (nonlinear_arith)
                requires
                    k == 0,
                    len > 0,
            ;
        } else {
            assert((k + len - 1) % len == k - 1) by (nonlinear_arith)
                requires
                    0 < k < len,
            ;
        }
    }
}

/// A step or a jump changes the position alone.
pub proof fn steps_change_the_position_alone(nav: NavView, dir: NavigationDirection, i: int)
    ensures
        nav.moved(dir) == (NavView { index: nav.moved(dir).index, ..nav }),
        nav.jumped(i) == (NavView { index: nav.jumped(i).index, ..nav }),
        0 <= i < nav.items.len() ==> nav.jumped(i).index == i,
        i < 0 || i >= nav.items.len() ==> nav.jumped(i) == nav,
{
}

/// The current image is the one at the position.
pub proof fn current_is_at_the_position(nav: NavView)
    ensures
        nav.valid() && nav.items.len() > 0 ==> nav.current() == Some(nav.items[nav.index]),
        nav.items.len() == 0 ==> nav.current() is None,
{
}

/// An item is of an entry: its file, with the entry's size and time. Its size in pixels
/// is not known yet, and it is no favorite.
pub open spec fn is_item_of(it: ItemView, e: EntryView) -> bool {
    &&& e.meta is Some
    &&& it.path == e.path
    &&& it.file_size == e.meta->0.len
    &&& it.modified == e.meta->0.modified
    &&& it.width == 0 && it.height == 0 && !it.is_favorite && it.thumbnail is None
}

/// The items have one of an entry.
pub open spec fn lists_item(items: Seq<ItemView>, e: EntryView) -> bool {
    exists|k: int| 0 <= k < items.len() && is_item_of(#[trigger] items[k], e)
}

/// An item is of one of the entries.
pub open spec fn comes_from(it: ItemView, entries: Seq<EntryView>) -> bool {
    exists|i: int| 0 <= i < entries.len() && is_item_of(it, #[trigger] entries[i])
}

proof fn items_come_from_entries(entries: Seq<EntryView>)
    ensures
        forall|k: int|
            0 <= k < crate::nav::items_of(entries).len() ==> comes_from(
                #[trigger] crate::nav::items_of(entries)[k],
                entries,
            ),
        forall|i: int|
            0 <= i < entries.len() && (#[trigger] entries[i]).meta is Some ==> lists_item(
                crate::nav::items_of(entries),
                entries[i],
            ),
    decreases entries.len(),
{
    if entries.len() > 0 {
        let front = entries.drop_last();
        items_come_from_entries(front);
        let a = crate::nav::items_of(front);
        let r = crate::nav::items_of(entries);
        assert forall|k: int| 0 <= k < r.len() implies comes_from(#[trigger] r[k], entries) by {
            if k < a.len() {
                assert(r[k] == a[k]);
                let i = choose|i: int|
                    0 <= i < front.len() && is_item_of(a[k], #[trigger] front[i]);
                assert(is_item_of(r[k], entries[i]));
            } else {
                assert(is_item_of(r[k], entries[entries.len() - 1]));
            }
        }
        assert forall|i: int|
            0 <= i < entries.len() && (#[trigger] entries[i]).meta is Some implies lists_item(
            r,
            entries[i],
        ) by {
            if i < front.len() {
                assert(front[i] == entries[i]);
                assert(lists_item(a, front[i]));
                let k = choose|k: int|
                    0 <= k < a.len() && is_item_of(#[trigger] a[k], front[i]);
                assert(r[k] == a[k]);
                assert(is_item_of(r[k], entries[i]));
            } else {
                assert(is_item_of(r[a.len() as int], entries[i]));
            }
        }
    }
}

/// Items stand in ascending order of their paths.
pub open spec fn items_ascend(items: Seq<ItemView>) -> bool {
    forall|i: int, j: int|
        0 <= i <= j < items.len() ==> crate::path::path_le(
            (#[trigger] items[i]).path.parts(),
            (#[trigger] items[j]).path.parts(),
        )
}

proof fn items_stay_ascending(entries: Seq<EntryView>)
    requires
        crate::sort::ascending::<crate::fs::DirEntry>(entries),
    ensures
        items_ascend(crate::nav::items_of(entries)),
    decreases entries.len(),
{
    let r = crate::nav::items_of(entries);
    if entries.len() > 0 {
        let front = entries.drop_last();
        let e = entries.last();
        let a = crate::nav::items_of(front);
        assert(crate::sort::ascending::<crate::fs::DirEntry>(front)) by {
            assert forall|i: int, j: int| 0 <= i <= j < front.len() implies crate::path::path_le(
                #[trigger] <crate::fs::DirEntry as crate::sort::Ranked>::key(front[i]),
                #[trigger] <crate::fs::DirEntry as crate::sort::Ranked>::key(front[j]),
            ) by {
                assert(front[i] == entries[i] && front[j] == entries[j]);
            }
        }
        items_stay_ascending(front);
        items_come_from_entries(front);
        assert forall|i: int, j: int| 0 <= i <= j < r.len() implies crate::path::path_le(
            (#[trigger] r[i]).path.parts(),
            (#[trigger] r[j]).path.parts(),
        ) by {
            if j < a.len() {
                assert(r[i] == a[i] && r[j] == a[j]);
            } else if i < a.len() {
                assert(r[i] == a[i]);
                assert(comes_from(a[i], front));
                let k = choose|k: int|
                    0 <= k < front.len() && is_item_of(a[i], #[trigger] front[k]);
                assert(front[k] == entries[k]);
                let last = entries.len() - 1;
                assert(crate::path::path_le(
                    <crate::fs::DirEntry as crate::sort::Ranked>::key(entries[k]),
                    <crate::fs::DirEntry as crate::sort::Ranked>::key(entries[last]),
                ));
            } else {
                crate::path::path_le_reflexive(r[i].path.parts());
            }
        }
    }
}

/// An entry shows up as an image: a file of a supported format whose metadata is known.
pub open spec fn shows_up(e: EntryView) -> bool {
    e.is_file && SupportedFormats::supports(e.path.parts()) && e.meta is Some
}

proof fn images_are_members(entries: Seq<EntryView>)
    ensures
        ({
            let found = crate::fs::images_of(entries);
            &&& forall|i: int|
                0 <= i < entries.len() && crate::fs::is_image(#[trigger] entries[i])
                    ==> found.contains(entries[i])
            &&& forall|j: int|
                0 <= j < found.len() ==> crate::fs::is_image(#[trigger] found[j])
                    && entries.contains(found[j])
            &&& crate::sort::ascending::<crate::fs::DirEntry>(found)
        }),
{
    broadcast use vstd::seq_lib::group_to_multiset_ensures;

    let found = crate::fs::images_of(entries);
    let f = |e: EntryView| crate::fs::is_image(e);
    let kept = entries.filter(f);
    crate::fs::images_law(entries);
    crate::seqs::filter_keeps_members(entries, f);
    assert forall|i: int|
        0 <= i < entries.len() && crate::fs::is_image(#[trigger] entries[i]) implies found.contains(
        entries[i],
    ) by {
        assert(entries.contains(entries[i]));
        assert(kept.contains(entries[i]));
        assert(kept.to_multiset().contains(entries[i]));
        assert(found.to_multiset().contains(entries[i]));
    }
}

/// An item is of one of the entries that show up.
pub open spec fn is_of_an_image(it: ItemView, entries: Seq<EntryView>) -> bool {
    exists|i: int|
        0 <= i < entries.len() && shows_up(#[trigger] entries[i]) && is_item_of(it, entries[i])
}

/// The images of a folder's listing are its files of the supported formats, all of them
/// and no others, in ascending order of their paths.
pub proof fn items_are_the_images(entries: Seq<EntryView>)
    ensures
        ({
            let items = crate::nav::items_of(
                crate::fs::listed_images(ListingView::Entries(entries)),
            );
            &&& forall|i: int|
                0 <= i < entries.len() && shows_up(#[trigger] entries[i]) ==> lists_item(
                    items,
                    entries[i],
                )
            &&& forall|k: int|
                0 <= k < items.len() ==> is_of_an_image(#[trigger] items[k], entries)
            &&& items_ascend(items)
        }),
        crate::nav::items_of(crate::fs::listed_images(ListingView::NotADirectory)).len() == 0,
{
    let found = crate::fs::images_of(entries);
    let items = crate::nav::items_of(found);
    images_are_members(entries);
    items_come_from_entries(found);
    items_stay_ascending(found);
    assert forall|i: int| 0 <= i < entries.len() && shows_up(#[trigger] entries[i]) implies lists_item(
        items,
        entries[i],
    ) by {
        assert(crate::fs::is_image(entries[i]));
        assert(found.contains(entries[i]));
        let j = choose|j: int| 0 <= j < found.len() && found[j] == entries[i];
        assert(found[j].meta is Some);
    }
    assert forall|k: int| 0 <= k < items.len() implies is_of_an_image(
        #[trigger] items[k],
        entries,
    ) by {
        assert(comes_from(items[k], found));
        let j = choose|j: int|
            0 <= j < found.len() && is_item_of(items[k], #[trigger] found[j]);
        assert(crate::fs::is_image(found[j]) && entries.contains(found[j]));
        let i = choose|i: int| 0 <= i < entries.len() && entries[i] == found[j];
        assert(shows_up(entries[i]));
    }
}

/// A folder has images exactly where it lists a file of a supported format; one that is
/// not there or cannot be read has none.
pub proof fn folders_with_images(entries: Seq<EntryView>)
    ensures
        crate::fs::has_images(ListingView::Entries(entries)) <==> exists|i: int|
            0 <= i < entries.len() && (#[trigger] entries[i]).is_file
                && SupportedFormats::supports(entries[i].path.parts()),
        !crate::fs::has_images(ListingView::NotADirectory),
        !crate::fs::has_images(ListingView::Unreadable),
{
    let found = crate::fs::images_of(entries);
    images_are_members(entries);
    if found.len() > 0 {
        assert(crate::fs::is_image(found[0]) && entries.contains(found[0]));
        let i = choose|i: int| 0 <= i < entries.len() && entries[i] == found[0];
        assert(entries[i].is_file && SupportedFormats::supports(entries[i].path.parts()));
    }
    if exists|i: int|
        0 <= i < entries.len() && (#[trigger] entries[i]).is_file && SupportedFormats::supports(
            entries[i].path.parts(),
        ) {
        let i = choose|i: int|
            0 <= i < entries.len() && (#[trigger] entries[i]).is_file
                && SupportedFormats::supports(entries[i].path.parts());
        assert(crate::fs::is_image(entries[i]));
        assert(found.contains(entries[i]));
    }
}

/// Opening another folder that can be read makes it the open one, with its images and
/// the position on the first; the folder left is the last one remembered, with the
/// position it was left at. One that cannot be read changes nothing but that memory, and
/// the folder that is open already changes nothing.
pub proof fn opening_shows_the_folder(nav: NavView, folder: PathView, listing: ListingView)
    ensures
        ({
            let t = nav.opened(folder, listing);
            let same = match nav.folder {
                Some(f) => f.parts() == folder.parts(),
                None => false,
            };
            &&& same ==> t == nav
            &&& !same && listing !is Unreadable ==> {
                &&& t.folder == Some(folder)
                &&& t.index == 0
                &&& t.items == crate::nav::items_of(crate::fs::listed_images(listing))
            }
            &&& !same && listing is Unreadable ==> t == (NavView { history: t.history, ..nav })
            &&& !same ==> match nav.folder {
                Some(old) => {
                    &&& t.history.len() > 0
                    &&& t.history.last() == (old, nav.index)
                    &&& nav.history.len() < 100 ==> t.history.drop_last() == nav.history
                    &&& nav.history.len() == 100 ==> t.history.drop_last()
                        == nav.history.drop_first()
                },
                None => t.history == nav.history,
            }
        }),
{
    let t = nav.opened(folder, listing);
    if let Some(old) = nav.folder {
        let longer = nav.history.push((old, nav.index));
        assert(longer.drop_last() =~= nav.history);
        if nav.history.len() == 100 {
            assert(longer.drop_first().drop_last() =~= nav.history.drop_first());
        }
    }
}

} // verus!
