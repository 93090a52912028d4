//! Where the viewer stands: the open folder, its images, the current one, and
//! the folders visited before.

use vstd::prelude::*;
use std::collections::VecDeque;
use crate::fs::{image_entries, DirEntry, EntryView, Listing, ListingView, ReadError};
use crate::model::{ImageItem, ItemView};
use crate::path::{FilePath, PathView};

verus! {

/// A step among the images of the open folder.
#[derive(Debug, Clone, Copy, PartialEq, Eq, Structural)]
pub enum NavigationDirection {
    Next,
    Previous,
    First,
    Last,
    Index(usize),
}

/// How many visited folders are remembered.
pub const MAX_HISTORY: usize = 100;

/// The open folder and the position in it.
pub struct NavigationService {
    current_folder: Option<FilePath>,
    items: Vec<ImageItem>,
    current_index: usize,
    history: VecDeque<(FilePath, usize)>,
}

/// The mathematical counterpart of [`NavigationService`].
#[verifier::ext_equal]
pub struct NavView {
    /// The open folder.
    pub folder: Option<PathView>,
    /// Its images.
    pub items: Seq<ItemView>,
    /// The position of the current image.
    pub index: int,
    /// The folders left, oldest first, each with the position it was left at.
    pub history: Seq<(PathView, int)>,
}

/// The items for a folder's images; those without metadata are left out.
pub open spec fn items_of(entries: Seq<EntryView>) -> Seq<ItemView>
    decreases entries.len(),
{
    if entries.len() == 0 {
        Seq::empty()
    } else {
        let front = items_of(entries.drop_last());
        match entries.last().meta {
            Some(m) => front.push(crate::model::fresh_item(entries.last().path, m)),
            None => front,
        }
    }
}

/// The history with one more folder at its end; the oldest is dropped beyond the limit.
pub open spec fn remembered(
    history: Seq<(PathView, int)>,
    folder: PathView,
    index: int,
) -> Seq<(PathView, int)> {
    let longer = history.push((folder, index));
    if longer.len() > MAX_HISTORY {
        longer.drop_first()
    } else {
        longer
    }
}

impl NavView {
    /// The position is that of an image wherever the folder has one, and the
    /// history is within its limit.
    pub open spec fn valid(self) -> bool {
        &&& 0 <= self.index < self.items.len() || (self.items.len() == 0 && self.index == 0)
        &&& self.history.len() <= MAX_HISTORY
    }

    /// The current image.
    pub open spec fn current(self) -> Option<ItemView> {
        if 0 <= self.index < self.items.len() {
            Some(self.items[self.index])
        } else {
            None
        }
    }

    /// The position that a step leads to. Next and previous go round the ends; an
    /// index beyond the last image means the last one.
    pub open spec fn target(self, dir: NavigationDirection) -> int {
        let len = self.items.len() as int;
        match dir {
            NavigationDirection::Next => (self.index + 1) % len,
            NavigationDirection::Previous => (self.index + len - 1) % len,
            NavigationDirection::First => 0,
            NavigationDirection::Last => len - 1,
            NavigationDirection::Index(i) => if i < len {
                i as int
            } else {
                len - 1
            },
        }
    }

    /// The state after a step; an empty folder leaves it as it is.
    pub open spec fn moved(self, dir: NavigationDirection) -> NavView {
        if self.items.len() == 0 {
            self
        } else {
            NavView { index: self.target(dir), ..self }
        }
    }

    /// The state after a jump to a position; one out of range leaves it as it is.
    pub open spec fn jumped(self, i: int) -> NavView {
        if 0 <= i < self.items.len() {
            NavView { index: i, ..self }
        } else {
            self
        }
    }

    /// The history after leaving the open folder.
    pub open spec fn history_on_leaving(self) -> Seq<(PathView, int)> {
        match self.folder {
            Some(old) => remembered(self.history, old, self.index),
            None => self.history,
        }
    }

    /// A folder is the open one.
    pub open spec fn is_open(self, folder: PathView) -> bool {
        match self.folder {
            Some(f) => f.same(folder),
            None => false,
        }
    }

    /// The state after opening a folder. The folder that is open already is left
    /// as it is. One that cannot be read leaves only a note in the history.
    pub open spec fn opened(self, folder: PathView, listing: ListingView) -> NavView {
        if self.is_open(folder) {
            self
        } else if listing is Unreadable {
            NavView { history: self.history_on_leaving(), ..self }
        } else {
            NavView {
                folder: Some(folder),
                items: items_of(crate::fs::listed_images(listing)),
                index: 0,
                history: self.history_on_leaving(),
            }
        }
    }
}

impl View for NavigationService {
    type V = NavView;

    closed spec fn view(&self) -> NavView {
        NavView {
            folder: match self.current_folder {
                Some(f) => Some(f@),
                None => None,
            },
            items: crate::sort::views(self.items@),
            index: self.current_index as int,
            history: Seq::new(
                self.history@.len(),
                |i: int| (self.history@[i].0@, self.history@[i].1 as int),
            ),
        }
    }
}

/// A step forward and a step back lead to the image they started from.
pub proof fn next_then_previous(nav: NavView)
    requires
        nav.valid(),
    ensures
        nav.moved(NavigationDirection::Next).moved(NavigationDirection::Previous) == nav,
        nav.moved(NavigationDirection::Previous).moved(NavigationDirection::Next) == nav,
{
    let len = nav.items.len() as int;
    if len > 0 {
        let i = nav.index as int;
        assert(0 <= i < len);
        if i + 1 == len {
            assert((i + 1) % len == 0) by (nonlinear_arith)
                requires
                    i + 1 == len,
                    len > 0,
            ;
        } else {
            assert((i + 1) % len == i + 1) by (nonlinear_arith)
                requires
                    0 <= i + 1 < len,
            ;
        }
        if i == 0 {
            assert((i + len - 1) % len == len - 1) by (nonlinear_arith)
                requires
                    i == 0,
                    len > 0,
            ;
        } else {
            assert((i + len - 1) % len == i - 1) by (nonlinear_arith)
                requires
                    0 < i < len,
            ;
        }
        let f = ((i + 1) % len);
        let b = ((i + len - 1) % len);
        assert((f + len - 1) % len == i) by (nonlinear_arith)
            requires
                0 <= i < len,
                f == 0 && i + 1 == len || f == i + 1 && i + 1 < len,
        ;
        assert((b + 1) % len == i) by (nonlinear_arith)
            requires
                0 <= i < len,
                b == len - 1 && i == 0 || b == i - 1 && i > 0,
        ;
    }
}

/// As many steps forward as the folder has images lead round to the start.
pub proof fn full_round(nav: NavView, steps: nat)
    requires
        nav.valid(),
        nav.items.len() > 0,
    ensures
        stepped(nav, steps).items == nav.items,
        stepped(nav, steps).index == (nav.index + steps) % nav.items.len() as int,
        steps == nav.items.len() ==> stepped(nav, steps) == nav,
    decreases steps,
{
    let len = nav.items.len() as int;
    if steps == 0 {
        assert(nav.index as int % len == nav.index) by (nonlinear_arith)
            requires
                0 <= nav.index < len,
        ;
    } else {
        full_round(nav, (steps - 1) as nat);
        let a = nav.index + steps - 1;
        assert(((a % len) + 1) % len == (a + 1) % len) by (nonlinear_arith)
            requires
                len > 0,
        ;
        stepped_keeps(nav, steps);
        if steps == nav.items.len() {
            assert((nav.index + len) % len == nav.index) by (nonlinear_arith)
                requires
                    0 <= nav.index < len,
            ;
        }
    }
}

/// The state after a number of steps forward.
pub open spec fn stepped(nav: NavView, steps: nat) -> NavView
    decreases steps,
{
    if steps == 0 {
        nav
    } else {
        stepped(nav, (steps - 1) as nat).moved(NavigationDirection::Next)
    }
}

proof fn stepped_keeps(nav: NavView, steps: nat)
    ensures
        stepped(nav, steps).items == nav.items,
        stepped(nav, steps).folder == nav.folder,
        stepped(nav, steps).history == nav.history,
    decreases steps,
{
    if steps > 0 {
        stepped_keeps(nav, (steps - 1) as nat);
    }
}

/// Every step and every folder opened keeps the position on an image and the
/// history within its limit.
pub proof fn navigation_stays_valid(
    nav: NavView,
    dir: NavigationDirection,
    i: int,
    folder: PathView,
    listing: ListingView,
)
    requires
        nav.valid(),
    ensures
        nav.moved(dir).valid(),
        nav.jumped(i).valid(),
        nav.opened(folder, listing).valid(),
{
    let len = nav.items.len() as int;
    if len > 0 {
        assert(0 <= (nav.index + 1) % len < len) by (nonlinear_arith)
            requires
                len > 0,
        ;
        assert(0 <= (nav.index + len - 1) % len < len) by (nonlinear_arith)
            requires
                len > 0,
        ;
    }
}

impl NavigationService {
    /// The position is that of an image wherever the folder has one.
    pub closed spec fn wf(&self) -> bool {
        self@.valid()
    }

    /// What well-formedness says of the view.
    pub proof fn wf_is_valid(&self)
        ensures
            self.wf() == self@.valid(),
    {
    }

    /// No folder is open yet.
    pub fn new() -> (r: Self)
        ensures
            r.wf(),
            r@ == (NavView {
                folder: None,
                items: Seq::empty(),
                index: 0,
                history: Seq::empty(),
            }),
    {
        let r = NavigationService {
            current_folder: None,
            items: Vec::new(),
            current_index: 0,
            history: VecDeque::with_capacity(MAX_HISTORY),
        };
        assert(r@.items =~= Seq::empty());
        assert(r@.history =~= Seq::empty());
        r
    }

    /// Opens a folder, given what a look at it found. The folder left is noted in
    /// the history, even where the new one cannot be read.
    pub fn navigate_folder(&mut self, folder: FilePath, listing: Listing) -> (r: Result<
        (),
        ReadError,
    >)
        requires
            old(self).wf(),
        ensures
            final(self).wf(),
            final(self)@ == old(self)@.opened(folder@, listing@),
            r is Err <==> !old(self)@.is_open(folder@) && listing@ is Unreadable,
    {
        let same: bool = match &self.current_folder {
            Some(f) => f.same(&folder),
            None => false,
        };
        if same {
            return Ok(());
        }
        let ghost start = self@;
        match &self.current_folder {
            Some(old_folder) => {
                let f = old_folder.clone();
                let index: usize = self.current_index;
                let ghost h = self.history@;
                let ghost fv = f@;
                self.history.push_back((f, index));
                assert(self@.history =~= start.history.push((fv, index as int)));
                if self.history.len() > MAX_HISTORY {
                    let ghost longer = self@.history;
                    let dropped = self.history.pop_front();
                    assert(self@.history =~= longer.drop_first());
                }
            },
            None => {},
        }
        assert(self@ =~= (NavView { history: start.history_on_leaving(), ..start }));
        let ghost want = items_of(crate::fs::listed_images(listing@));
        match image_entries(listing) {
            Err(e) => Err(e),
            Ok(entries) => {
                let items = collect_items(entries);
                self.current_folder = Some(folder);
                self.items = items;
                self.current_index = 0;
                assert(self@ =~= start.opened(folder@, listing@));
                Ok(())
            },
        }
    }

    /// Takes a step and returns the image it leads to; an empty folder gives none.
    pub fn move_to(&mut self, dir: NavigationDirection) -> (r: Option<&ImageItem>)
        requires
            old(self).wf(),
        ensures
            final(self).wf(),
            final(self)@ == old(self)@.moved(dir),
            r.is_some() == (old(self)@.items.len() > 0),
            r matches Some(item) ==> Some(item@) == final(self)@.current(),
    {
        if self.items.len() == 0 {
            return None;
        }
        let ghost start = self@;
        let len: usize = self.items.len();
        let i: usize = self.current_index;
        proof {
            navigation_stays_valid(start, dir, 0, PathView::empty(), ListingView::NotADirectory);
            let l = len as int;
            let k = i as int;
            if k + 1 < l {
                assert((k + 1) % l == k + 1) by (nonlinear_arith)
                    requires
                        0 <= k + 1 < l,
                ;
            } else {
                assert((k + 1) % l == 0) by (nonlinear_arith)
                    requires
                        k + 1 == l,
                        l > 0,
                ;
            }
            if k == 0 {
                assert((k + l - 1) % l == l - 1) by (nonlinear_arith)
                    requires
                        k == 0,
                        l > 0,
                ;
            } else {
                assert((k + l - 1) % l == k - 1) by (nonlinear_arith)
                    requires
                        0 < k < l,
                ;
            }
        }
        let next: usize = match dir {
            NavigationDirection::Next => if i + 1 < len {
                i + 1
            } else {
                0
            },
            NavigationDirection::Previous => if i == 0 {
                len - 1
            } else {
                i - 1
            },
            NavigationDirection::First => 0,
            NavigationDirection::Last => len - 1,
            NavigationDirection::Index(k) => if k < len {
                k
            } else {
                len - 1
            },
        };
        self.current_index = next;
        assert(self@ =~= start.moved(dir));
        assert(self@.items[next as int] == self.items@[next as int]@);
        Some(&self.items[next])
    }

    /// Jumps to a position; one out of range changes nothing.
    pub fn set_index(&mut self, i: usize) -> (r: Option<&ImageItem>)
        requires
            old(self).wf(),
        ensures
            final(self).wf(),
            final(self)@ == old(self)@.jumped(i as int),
            r.is_some() == (i < old(self)@.items.len()),
            r matches Some(item) ==> item@ == old(self)@.items[i as int],
    {
        if self.items.len() == 0 || i >= self.items.len() {
            return None;
        }
        let ghost start = self@;
        self.current_index = i;
        assert(self@ =~= start.jumped(i as int));
        assert(self@.items[i as int] == self.items@[i as int]@);
        Some(&self.items[i])
    }

    /// The current image.
    pub fn current(&self) -> (r: Option<&ImageItem>)
        requires
            self.wf(),
        ensures
            r.is_some() == self@.current().is_some(),
            r matches Some(item) ==> Some(item@) == self@.current(),
    {
        if self.current_index < self.items.len() {
            assert(self@.items[self.current_index as int] == self.items@[self.current_index as int]@);
            Some(&self.items[self.current_index])
        } else {
            None
        }
    }

    /// The position of the current image.
    pub fn current_index(&self) -> (r: usize)
        ensures
            r == self@.index,
    {
        self.current_index
    }

    /// The images of the open folder.
    pub fn items(&self) -> (r: &[ImageItem])
        ensures
            crate::sort::views(r@) == self@.items,
    {
        self.items.as_slice()
    }

    /// The open folder.
    pub fn folder(&self) -> (r: Option<&FilePath>)
        ensures
            r.is_some() == self@.folder.is_some(),
            r matches Some(f) ==> Some(f@) == self@.folder,
    {
        self.current_folder.as_ref()
    }

    /// How many images the open folder has.
    pub fn count(&self) -> (r: usize)
        ensures
            r == self@.items.len(),
    {
        self.items.len()
    }

    /// Whether there is no image.
    pub fn is_empty(&self) -> (r: bool)
        ensures
            r == (self@.items.len() == 0),
    {
        self.items.len() == 0
    }
}

fn collect_items(entries: Vec<DirEntry>) -> (r: Vec<ImageItem>)
    ensures
        crate::sort::views(r@) == items_of(crate::sort::views(entries@)),
{
    let ghost all = crate::sort::views(entries@);
    let mut out: Vec<ImageItem> = Vec::new();
    assert(crate::sort::views(out@) =~= items_of(all.take(0)));
    for e in it: entries
        invariant
            all == crate::sort::views(it.seq()),
            crate::sort::views(out@) == items_of(all.take(it.index())),
    {
        let ghost i = it.index();
        let ghost before = out@;
        assert(all[i] == e@);
        assert(all.take(i + 1).drop_last() =~= all.take(i));
        match ImageItem::from_path(e.path, e.meta) {
            Ok(item) => {
                let ghost iv = item@;
                out.push(item);
                assert(crate::sort::views(out@) =~= crate::sort::views(before).push(iv));
            },
            Err(_) => {},
        }
    }
    assert(all.take(all.len() as int) =~= all);
    out
}

} // verus!
