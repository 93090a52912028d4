//! What the viewer remembers between runs: folders, favorites, window and theme.

use vstd::prelude::*;
use crate::path::{FilePath, PathView};
use crate::text::same_text;

verus! {

/// How many recently opened folders are kept.
pub const MAX_RECENT: usize = 10;

/// How many favorite folders are kept.
pub const MAX_FAVORITES: usize = 20;

/// The remembered values.
#[derive(Debug)]
pub struct SettingsData {
    /// The folder opened last.
    pub last_folder: Option<FilePath>,
    /// Window position (x, y).
    pub window_position: Option<(i32, i32)>,
    /// Window size (width, height).
    pub window_size: Option<(u32, u32)>,
    /// Upper bound for the sides of decoded images.
    pub max_decode_dimension: Option<u32>,
    /// Fullscreen mode.
    pub fullscreen: Option<bool>,
    /// Recently opened folders, most recent first.
    pub recent_folders: Vec<FilePath>,
    /// Favorite folders, the latest first.
    pub favorite_folders: Vec<FilePath>,
    /// "dark" or "light"; anything else means dark.
    pub theme: Option<String>,
}

/// The mathematical counterpart of [`SettingsData`].
#[verifier::ext_equal]
pub struct SettingsView {
    pub last_folder: Option<PathView>,
    pub window_position: Option<(i32, i32)>,
    pub window_size: Option<(u32, u32)>,
    pub max_decode_dimension: Option<u32>,
    pub fullscreen: Option<bool>,
    pub recent: Seq<PathView>,
    pub favorites: Seq<PathView>,
    pub theme: Option<Seq<char>>,
}

impl View for SettingsData {
    type V = SettingsView;

    open spec fn view(&self) -> SettingsView {
        SettingsView {
            last_folder: match self.last_folder {
                Some(f) => Some(f@),
                None => None,
            },
            window_position: self.window_position,
            window_size: self.window_size,
            max_decode_dimension: self.max_decode_dimension,
            fullscreen: self.fullscreen,
            recent: crate::sort::views(self.recent_folders@),
            favorites: crate::sort::views(self.favorite_folders@),
            theme: match self.theme {
                Some(t) => Some(t@),
                None => None,
            },
        }
    }
}

/// The theme of the user interface.
#[derive(Debug, Clone, Copy, PartialEq, Eq, Structural)]
pub enum ThemeSetting {
    Dark,
    Light,
}

impl ThemeSetting {
    /// The other theme.
    pub open spec fn other(self) -> ThemeSetting {
        match self {
            ThemeSetting::Dark => ThemeSetting::Light,
            ThemeSetting::Light => ThemeSetting::Dark,
        }
    }

    /// The word that the theme is saved as.
    pub open spec fn word(self) -> Seq<char> {
        match self {
            ThemeSetting::Dark => "dark"@,
            ThemeSetting::Light => "light"@,
        }
    }

    /// Gives the other theme.
    pub fn toggle(self) -> (r: Self)
        ensures
            r == self.other(),
    {
        match self {
            ThemeSetting::Dark => ThemeSetting::Light,
            ThemeSetting::Light => ThemeSetting::Dark,
        }
    }
}

/// Changing the theme twice gives the first one back.
pub proof fn toggle_twice(t: ThemeSetting)
    ensures
        t.other().other() == t,
        t.other() != t,
{
}

/// A folder other than one.
pub open spec fn other_than(folder: PathView) -> spec_fn(PathView) -> bool {
    |f: PathView| !f.same(folder)
}

/// A list without a folder.
pub open spec fn without(list: Seq<PathView>, folder: PathView) -> Seq<PathView> {
    list.filter(other_than(folder))
}

/// A list has a folder.
pub open spec fn holds(list: Seq<PathView>, folder: PathView) -> bool {
    exists|i: int| 0 <= i < list.len() && (#[trigger] list[i]).same(folder)
}

/// No folder stands on a list twice.
pub open spec fn distinct_folders(list: Seq<PathView>) -> bool {
    forall|i: int, j: int| 0 <= i < j < list.len() ==> !(#[trigger] list[i]).same(#[trigger] list[j])
}

/// A list with a folder moved or put to the front, cut off at a length.
pub open spec fn fronted(list: Seq<PathView>, folder: PathView, cap: int) -> Seq<
    PathView,
> {
    crate::seqs::at_most(without(list, folder).insert(0, folder), cap)
}

/// A list without a folder that it has, or with one in front that it has not.
pub open spec fn toggled(list: Seq<PathView>, folder: PathView, cap: int) -> Seq<
    PathView,
> {
    if holds(list, folder) {
        without(list, folder)
    } else {
        crate::seqs::at_most(list.insert(0, folder), cap)
    }
}

/// A theme by its saved word.
pub open spec fn theme_of(word: Option<Seq<char>>) -> ThemeSetting {
    if word == Some("light"@) {
        ThemeSetting::Light
    } else {
        ThemeSetting::Dark
    }
}

/// The saved word for a theme names that theme.
pub proof fn theme_round_trip(t: ThemeSetting)
    ensures
        theme_of(Some(t.word())) == t,
{
    reveal_strlit("dark");
    reveal_strlit("light");
    assert("dark"@.len() != "light"@.len());
}

proof fn filter_keeps_distinct(list: Seq<PathView>, f: spec_fn(PathView) -> bool)
    requires
        distinct_folders(list),
    ensures
        distinct_folders(list.filter(f)),
    decreases list.len(),
{
    reveal(Seq::filter);
    if list.len() > 0 {
        let t = list.drop_last();
        filter_keeps_distinct(t, f);
        crate::seqs::filter_keeps_members(t, f);
        let u = t.filter(f);
        let r = list.filter(f);
        assert(r == if f(list.last()) { u.push(list.last()) } else { u });
        assert forall|i: int, j: int| 0 <= i < j < r.len() implies !(#[trigger] r[i]).same(
            #[trigger] r[j],
        ) by {
            if j == u.len() {
                assert(r[i] == u[i]);
                assert(u.contains(u[i]));
                assert(t.contains(u[i]));
                let k = choose|k: int| 0 <= k < t.len() && t[k] == u[i];
                assert(list[k] == u[i]);
                assert(!list[k].same(list[list.len() - 1]));
            } else {
                assert(r[i] == u[i] && r[j] == u[j]);
                assert(!u[i].same(u[j]));
            }
        }
    }
}

/// A folder put to the front stands there once and as it was given, the list stays
/// within its length, and whatever else it holds was in it before. A list without
/// repetitions stays without them.
pub proof fn fronted_law(list: Seq<PathView>, folder: PathView, cap: int)
    requires
        cap >= 1,
    ensures
        fronted(list, folder, cap).len() <= cap,
        fronted(list, folder, cap).len() >= 1,
        fronted(list, folder, cap)[0] == folder,
        forall|i: int|
            0 < i < fronted(list, folder, cap).len() ==> {
                &&& !(#[trigger] fronted(list, folder, cap)[i]).same(folder)
                &&& list.contains(fronted(list, folder, cap)[i])
            },
        distinct_folders(list) ==> distinct_folders(fronted(list, folder, cap)),
        list.len() < cap ==> (forall|f: PathView|
            list.contains(f) && !f.same(folder) ==> #[trigger] fronted(
                list,
                folder,
                cap,
            ).contains(f)),
{
    let w = without(list, folder);
    let whole = w.insert(0, folder);
    let r = fronted(list, folder, cap);
    crate::seqs::filter_keeps_members(list, other_than(folder));
    assert forall|i: int| 0 < i < r.len() implies !(#[trigger] r[i]).same(folder) && list.contains(
        r[i],
    ) by {
        assert(r[i] == whole[i] && whole[i] == w[i - 1]);
        assert(w.contains(w[i - 1]));
    }
    if distinct_folders(list) {
        filter_keeps_distinct(list, other_than(folder));
        assert forall|i: int, j: int| 0 <= i < j < r.len() implies !(#[trigger] r[i]).same(
            #[trigger] r[j],
        ) by {
            assert(r[j] == w[j - 1]);
            assert(w.contains(w[j - 1]));
            if i > 0 {
                assert(r[i] == w[i - 1]);
            }
        }
    }
    if list.len() < cap {
        list.lemma_filter_len(other_than(folder));
        assert(r == whole);
        assert forall|f: PathView| list.contains(f) && !f.same(folder) implies #[trigger] r.contains(
            f,
        ) by {
            assert(w.contains(f));
            let k = choose|k: int| 0 <= k < w.len() && w[k] == f;
            assert(r[k + 1] == f);
        }
    }
}

/// Toggling a folder puts it on the list exactly where it was not on it, and keeps
/// the list within its length and without repetitions.
pub proof fn toggled_law(list: Seq<PathView>, folder: PathView, cap: int)
    requires
        cap >= 1,
        list.len() <= cap,
    ensures
        holds(toggled(list, folder, cap), folder) == !holds(list, folder),
        toggled(list, folder, cap).len() <= cap,
        distinct_folders(list) ==> distinct_folders(toggled(list, folder, cap)),
{
    let r = toggled(list, folder, cap);
    crate::seqs::filter_keeps_members(list, other_than(folder));
    list.lemma_filter_len(other_than(folder));
    if holds(list, folder) {
        if distinct_folders(list) {
            filter_keeps_distinct(list, other_than(folder));
        }
        if holds(r, folder) {
            let k = choose|k: int| 0 <= k < r.len() && (#[trigger] r[k]).same(folder);
            assert(r.contains(r[k]));
        }
    } else {
        assert(r[0] == folder);
        assert(r[0].same(folder));
        if distinct_folders(list) {
            assert forall|i: int, j: int| 0 <= i < j < r.len() implies !(#[trigger] r[i]).same(
                #[trigger] r[j],
            ) by {
                assert(r[j] == list[j - 1]);
                if i > 0 {
                    assert(r[i] == list[i - 1]);
                } else if r[j].same(folder) {
                    assert(list[j - 1].same(folder));
                }
            }
        }
    }
}

/// A removed folder is gone, and nothing else is.
pub proof fn without_law(list: Seq<PathView>, folder: PathView)
    ensures
        !holds(without(list, folder), folder),
        forall|f: PathView|
            #[trigger] without(list, folder).contains(f) <==> list.contains(f) && !f.same(folder),
{
    let r = without(list, folder);
    crate::seqs::filter_keeps_members(list, other_than(folder));
    if holds(r, folder) {
        let k = choose|k: int| 0 <= k < r.len() && (#[trigger] r[k]).same(folder);
        assert(r.contains(r[k]));
    }
}

proof fn without_unheld(list: Seq<PathView>, folder: PathView)
    requires
        !holds(list, folder),
    ensures
        without(list, folder) == list,
    decreases list.len(),
{
    reveal(Seq::filter);
    if list.len() > 0 {
        let t = list.drop_last();
        assert(!holds(t, folder)) by {
            if holds(t, folder) {
                let k = choose|k: int| 0 <= k < t.len() && (#[trigger] t[k]).same(folder);
                assert(list[k].same(folder));
            }
        }
        without_unheld(t, folder);
        assert(!list[list.len() - 1].same(folder));
        assert(without(list, folder) =~= list);
    } else {
        assert(without(list, folder) =~= list);
    }
}

proof fn without_one(list: Seq<PathView>, folder: PathView)
    requires
        distinct_folders(list),
        holds(list, folder),
    ensures
        without(list, folder).len() == list.len() - 1,
    decreases list.len(),
{
    reveal(Seq::filter);
    let t = list.drop_last();
    let last = list[list.len() - 1];
    assert(distinct_folders(t)) by {
        assert forall|i: int, j: int| 0 <= i < j < t.len() implies !(#[trigger] t[i]).same(
            #[trigger] t[j],
        ) by {
            assert(!list[i].same(list[j]));
        }
    }
    if last.same(folder) {
        assert(!holds(t, folder)) by {
            if holds(t, folder) {
                let k = choose|k: int| 0 <= k < t.len() && (#[trigger] t[k]).same(folder);
                assert(!list[k].same(list[list.len() - 1]));
            }
        }
        without_unheld(t, folder);
    } else {
        let k = choose|k: int| 0 <= k < list.len() && (#[trigger] list[k]).same(folder);
        assert(t[k].same(folder));
        without_one(t, folder);
    }
}

proof fn without_front(list: Seq<PathView>, folder: PathView)
    ensures
        without(seq![folder] + list, folder) == without(list, folder),
{
    let one = seq![folder];
    let f = other_than(folder);
    Seq::filter_distributes_over_add(one, list, f);
    assert(one.filter(f) =~= Seq::<PathView>::empty()) by {
        reveal_with_fuel(Seq::filter, 2);
        assert(one.drop_last() =~= Seq::<PathView>::empty());
        assert(one.last() == folder);
        assert(!f(folder));
    }
    assert(one.filter(f) + list.filter(f) =~= list.filter(f));
}

/// Taking a folder off a list takes off that folder alone: every other one stays, and
/// they stay in their order.
pub proof fn removal_leaves_the_others(list: Seq<PathView>, folder: PathView, f: PathView)
    ensures
        !f.same(folder) ==> (without(list, folder).contains(f) <==> list.contains(f)),
        !holds(without(list, folder), folder),
        crate::seqs::in_order(without(list, folder), list),
        !holds(list, folder) ==> without(list, folder) == list,
        holds(list, folder) && distinct_folders(list) ==> without(list, folder).len() == list.len()
            - 1,
{
    without_law(list, folder);
    crate::seqs::filter_keeps_order(list, other_than(folder));
    if !holds(list, folder) {
        without_unheld(list, folder);
    } else if distinct_folders(list) {
        without_one(list, folder);
    }
}

/// Toggling a folder leaves every other folder as it was and where it was. A folder that
/// is taken off leaves alone; one that is put on stands in front of all others, of which
/// only those beyond the length go, from the end.
pub proof fn toggling_leaves_the_others(
    list: Seq<PathView>,
    folder: PathView,
    cap: int,
    f: PathView,
)
    requires
        cap >= 1,
        list.len() <= cap,
    ensures
        !f.same(folder) && (holds(list, folder) || list.len() < cap) ==> (toggled(
            list,
            folder,
            cap,
        ).contains(f) <==> list.contains(f)),
        holds(list, folder) ==> crate::seqs::in_order(toggled(list, folder, cap), list),
        holds(list, folder) && distinct_folders(list) ==> toggled(list, folder, cap).len()
            == list.len() - 1,
        !holds(list, folder) ==> toggled(list, folder, cap)[0] == folder,
        !holds(list, folder) && list.len() < cap ==> toggled(list, folder, cap).skip(1) == list,
        !holds(list, folder) && list.len() == cap ==> toggled(list, folder, cap).skip(1)
            == list.drop_last(),
        !holds(list, folder) && list.len() < cap ==> toggled(
            toggled(list, folder, cap),
            folder,
            cap,
        ) == list,
{
    let r = toggled(list, folder, cap);
    removal_leaves_the_others(list, folder, f);
    if !holds(list, folder) {
        let whole = list.insert(0, folder);
        if list.len() < cap {
            assert(r.skip(1) =~= list);
            assert(r =~= seq![folder] + list);
            if list.contains(f) {
                let k = choose|k: int| 0 <= k < list.len() && list[k] == f;
                assert(r[k + 1] == f);
            }
            if !f.same(folder) && r.contains(f) {
                let k = choose|k: int| 0 <= k < r.len() && r[k] == f;
                assert(list[k - 1] == f);
            }
            assert(r[0].same(folder));
            assert(holds(r, folder));
            without_front(list, folder);
            without_unheld(list, folder);
        } else {
            assert(r.skip(1) =~= list.drop_last());
        }
    }
}

/// Putting a folder in front leaves the others behind it in their order, and drops only
/// what is beyond the length, from the end. Doing it again changes nothing.
pub proof fn fronting_leaves_the_others(list: Seq<PathView>, folder: PathView, cap: int)
    requires
        cap >= 1,
    ensures
        crate::seqs::in_order(fronted(list, folder, cap).skip(1), list),
        !holds(list, folder) && list.len() < cap ==> fronted(list, folder, cap).skip(1) == list,
        !holds(list, folder) && list.len() >= cap ==> fronted(list, folder, cap).skip(1)
            == list.take(cap - 1),
        holds(list, folder) && distinct_folders(list) && list.len() <= cap ==> fronted(
            list,
            folder,
            cap,
        ).len() == list.len(),
{
    let w = without(list, folder);
    let r = fronted(list, folder, cap);
    let whole = w.insert(0, folder);
    crate::seqs::filter_keeps_order(list, other_than(folder));
    let tail = r.skip(1);
    assert forall|i: int, j: int| 0 <= i < j < tail.len() implies crate::seqs::comes_before(
        list,
        #[trigger] tail[i],
        #[trigger] tail[j],
    ) by {
        assert(tail[i] == w[i] && tail[j] == w[j]);
    }
    if !holds(list, folder) {
        without_unheld(list, folder);
        if list.len() < cap {
            assert(tail =~= list);
        } else {
            assert(tail =~= list.take(cap - 1));
        }
    } else if distinct_folders(list) {
        without_one(list, folder);
    }
}

/// Settings that nothing was remembered in have no folder and no size, and are dark.
pub proof fn blank_settings()
    ensures
        SettingsView::blank().last_folder is None,
        SettingsView::blank().recent.len() == 0,
        SettingsView::blank().favorites.len() == 0,
        SettingsView::blank().window_size is None,
        SettingsView::blank().window_position is None,
        SettingsView::blank().fullscreen is None,
        SettingsView::blank().max_decode_dimension is None,
        theme_of(SettingsView::blank().theme) == ThemeSetting::Dark,
{
}

/// Only the word for the light theme means the light theme.
pub proof fn only_light_is_light(word: Option<Seq<char>>)
    ensures
        theme_of(word) == ThemeSetting::Light <==> word == Some("light"@),
        ThemeSetting::Light.word() == "light"@,
        ThemeSetting::Dark.word() == "dark"@,
{
}

fn drop_folder(list: &mut Vec<FilePath>, folder: &FilePath)
    ensures
        crate::sort::views(final(list)@) == without(crate::sort::views(old(list)@), folder@),
{
    let ghost all = crate::sort::views(list@);
    let ghost f = other_than(folder@);
    let ghost n = all.len() as int;
    let ghost mut k: int = 0;
    let mut i: usize = 0;
    assert(all.take(0).filter(f) =~= Seq::empty()) by {
        reveal(Seq::filter);
    }
    assert(crate::sort::views(list@) =~= all.take(0).filter(f) + all.skip(0));
    while i < list.len()
        invariant
            f == other_than(folder@),
            n == all.len(),
            0 <= k <= n,
            list@.len() <= n,
            i == all.take(k).filter(f).len(),
            crate::sort::views(list@) == all.take(k).filter(f) + all.skip(k),
        decreases n - k,
    {
        let ghost done = all.take(k).filter(f);
        let ghost before = list@;
        let ghost seen = crate::sort::views(list@);
        assert(seen.len() == list@.len());
        assert(k < n);
        assert(seen[i as int] == all[k]);
        assert(seen[i as int] == list@[i as int]@);
        assert(all.take(k + 1).drop_last() =~= all.take(k));
        assert(all.take(k + 1).last() == all[k]);
        reveal(Seq::filter);
        if list[i].same(folder) {
            let removed = list.remove(i);
            assert(crate::sort::views(list@) =~= seen.remove(i as int));
            assert(seen.remove(i as int) =~= done + all.skip(k + 1));
            assert(all.take(k + 1).filter(f) == done);
        } else {
            assert(all.take(k + 1).filter(f) == done.push(all[k]));
            assert(seen =~= done.push(all[k]) + all.skip(k + 1));
            i += 1;
        }
        proof {
            k = k + 1;
        }
    }
    assert(k == n) by {
        if k < n {
            assert(crate::sort::views(list@).len() > i);
        }
    }
    assert(all.take(n) =~= all);
    assert(crate::sort::views(list@) =~= all.filter(f));
}

fn put_in_front(list: &mut Vec<FilePath>, folder: FilePath, cap: usize)
    requires
        cap >= 1,
    ensures
        crate::sort::views(final(list)@) == crate::seqs::at_most(
            crate::sort::views(old(list)@).insert(0, folder@),
            cap as int,
        ),
{
    let ghost before = crate::sort::views(list@);
    let ghost fv = folder@;
    list.insert(0, folder);
    assert(crate::sort::views(list@) =~= before.insert(0, fv));
    let ghost whole = list@;
    list.truncate(cap);
    assert(crate::sort::views(list@) =~= crate::seqs::at_most(before.insert(0, fv), cap as int));
}

fn holds_folder(list: &Vec<FilePath>, folder: &FilePath) -> (r: bool)
    ensures
        r == holds(crate::sort::views(list@), folder@),
{
    let ghost all = crate::sort::views(list@);
    let mut i: usize = 0;
    while i < list.len()
        invariant
            all == crate::sort::views(list@),
            i <= list.len(),
            forall|j: int| 0 <= j < i ==> !(#[trigger] all[j]).same(folder@),
        decreases list.len() - i,
    {
        assert(all[i as int] == list@[i as int]@);
        if list[i].same(folder) {
            assert(all[i as int].same(folder@));
            return true;
        }
        i += 1;
    }
    false
}

/// Copies a list of folders.
pub fn copy_folders(list: &Vec<FilePath>) -> (r: Vec<FilePath>)
    ensures
        crate::sort::views(r@) == crate::sort::views(list@),
{
    let mut out: Vec<FilePath> = Vec::new();
    let mut i: usize = 0;
    while i < list.len()
        invariant
            i <= list.len(),
            out.len() == i,
            forall|j: int| 0 <= j < i ==> (#[trigger] out@[j])@ == list@[j]@,
        decreases list.len() - i,
    {
        out.push(list[i].clone());
        i += 1;
    }
    assert(crate::sort::views(out@) =~= crate::sort::views(list@));
    out
}

impl Clone for SettingsData {
    fn clone(&self) -> (r: Self)
        ensures
            r@ == self@,
    {
        SettingsData {
            last_folder: match &self.last_folder {
                Some(f) => Some(f.clone()),
                None => None,
            },
            window_position: self.window_position,
            window_size: self.window_size,
            max_decode_dimension: self.max_decode_dimension,
            fullscreen: self.fullscreen,
            recent_folders: copy_folders(&self.recent_folders),
            favorite_folders: copy_folders(&self.favorite_folders),
            theme: match &self.theme {
                Some(t) => Some(t.clone()),
                None => None,
            },
        }
    }
}

impl SettingsView {
    /// Nothing is remembered.
    pub open spec fn blank() -> SettingsView {
        SettingsView {
            last_folder: None,
            window_position: None,
            window_size: None,
            max_decode_dimension: None,
            fullscreen: None,
            recent: Seq::empty(),
            favorites: Seq::empty(),
            theme: None,
        }
    }
}

impl Default for SettingsData {
    fn default() -> (r: Self)
        ensures
            r@ == SettingsView::blank(),
    {
        let r = SettingsData {
            last_folder: None,
            window_position: None,
            window_size: None,
            max_decode_dimension: None,
            fullscreen: None,
            recent_folders: Vec::new(),
            favorite_folders: Vec::new(),
            theme: None,
        };
        assert(r@.recent =~= Seq::empty());
        assert(r@.favorites =~= Seq::empty());
        r
    }
}

/// The settings of a run. Every change but that of the fullscreen mode is to be
/// saved at once.
pub struct SettingsStore {
    data: SettingsData,
}

impl View for SettingsStore {
    type V = SettingsView;

    closed spec fn view(&self) -> SettingsView {
        self.data@
    }
}

impl SettingsStore {
    /// Starts with what was loaded; where nothing was, with nothing remembered.
    pub fn new(loaded: Option<SettingsData>) -> (r: Self)
        ensures
            r@ == match loaded {
                Some(d) => d@,
                None => SettingsView::blank(),
            },
    {
        match loaded {
            Some(data) => SettingsStore { data },
            None => SettingsStore { data: SettingsData::default() },
        }
    }

    /// A copy of all values.
    pub fn snapshot(&self) -> (r: SettingsData)
        ensures
            r@ == self@,
    {
        self.data.clone()
    }

    /// The folder opened last.
    pub fn last_folder(&self) -> (r: Option<FilePath>)
        ensures
            r.is_some() == self@.last_folder.is_some(),
            r matches Some(f) ==> Some(f@) == self@.last_folder,
    {
        match &self.data.last_folder {
            Some(f) => Some(f.clone()),
            None => None,
        }
    }

    /// Sets the folder opened last.
    pub fn set_last_folder(&mut self, folder: FilePath)
        ensures
            final(self)@ == (SettingsView { last_folder: Some(folder@), ..old(self)@ }),
    {
        self.data.last_folder = Some(folder);
    }

    /// The recently opened folders, most recent first.
    pub fn recent_folders(&self) -> (r: Vec<FilePath>)
        ensures
            crate::sort::views(r@) == self@.recent,
    {
        copy_folders(&self.data.recent_folders)
    }

    /// Puts a folder to the front of the recent ones.
    pub fn push_recent_folder(&mut self, folder: FilePath)
        ensures
            final(self)@ == (SettingsView {
                recent: fronted(old(self)@.recent, folder@, MAX_RECENT as int),
                ..old(self)@
            }),
    {
        let ghost start = self@;
        drop_folder(&mut self.data.recent_folders, &folder);
        put_in_front(&mut self.data.recent_folders, folder, MAX_RECENT);
        assert(self@ =~= (SettingsView {
            recent: fronted(start.recent, folder@, MAX_RECENT as int),
            ..start
        }));
    }

    /// Takes a folder off the recent ones.
    pub fn remove_recent_folder(&mut self, folder: &FilePath)
        ensures
            final(self)@ == (SettingsView {
                recent: without(old(self)@.recent, folder@),
                ..old(self)@
            }),
    {
        let ghost start = self@;
        drop_folder(&mut self.data.recent_folders, folder);
        assert(self@ =~= (SettingsView { recent: without(start.recent, folder@), ..start }));
    }

    /// The favorite folders, the latest first.
    pub fn favorite_folders(&self) -> (r: Vec<FilePath>)
        ensures
            crate::sort::views(r@) == self@.favorites,
    {
        copy_folders(&self.data.favorite_folders)
    }

    /// Whether a folder is a favorite.
    pub fn is_favorite(&self, folder: &FilePath) -> (r: bool)
        ensures
            r == holds(self@.favorites, folder@),
    {
        holds_folder(&self.data.favorite_folders, folder)
    }

    /// The theme; dark unless it was set to light.
    pub fn theme(&self) -> (r: ThemeSetting)
        ensures
            r == theme_of(self@.theme),
    {
        match &self.data.theme {
            Some(t) => if same_text(t.as_str(), "light") {
                ThemeSetting::Light
            } else {
                ThemeSetting::Dark
            },
            None => ThemeSetting::Dark,
        }
    }

    /// Sets the theme.
    pub fn set_theme(&mut self, theme: ThemeSetting)
        ensures
            final(self)@ == (SettingsView { theme: Some(theme.word()), ..old(self)@ }),
            theme_of(final(self)@.theme) == theme,
    {
        proof {
            theme_round_trip(theme);
        }
        self.data.theme = Some(
            match theme {
                ThemeSetting::Dark => "dark".to_owned(),
                ThemeSetting::Light => "light".to_owned(),
            },
        );
    }

    /// Puts a folder to the front of the favorites.
    pub fn add_favorite_folder(&mut self, folder: FilePath)
        ensures
            final(self)@ == (SettingsView {
                favorites: fronted(old(self)@.favorites, folder@, MAX_FAVORITES as int),
                ..old(self)@
            }),
    {
        let ghost start = self@;
        drop_folder(&mut self.data.favorite_folders, &folder);
        put_in_front(&mut self.data.favorite_folders, folder, MAX_FAVORITES);
        assert(self@ =~= (SettingsView {
            favorites: fronted(start.favorites, folder@, MAX_FAVORITES as int),
            ..start
        }));
    }

    /// Takes a folder off the favorites.
    pub fn remove_favorite_folder(&mut self, folder: &FilePath)
        ensures
            final(self)@ == (SettingsView {
                favorites: without(old(self)@.favorites, folder@),
                ..old(self)@
            }),
    {
        let ghost start = self@;
        drop_folder(&mut self.data.favorite_folders, folder);
        assert(self@ =~= (SettingsView { favorites: without(start.favorites, folder@), ..start }));
    }

    /// Takes a folder off the favorites where it is one, or puts it in front of them.
    pub fn toggle_favorite_folder(&mut self, folder: FilePath)
        ensures
            final(self)@ == (SettingsView {
                favorites: toggled(old(self)@.favorites, folder@, MAX_FAVORITES as int),
                ..old(self)@
            }),
    {
        let ghost start = self@;
        if holds_folder(&self.data.favorite_folders, &folder) {
            drop_folder(&mut self.data.favorite_folders, &folder);
        } else {
            put_in_front(&mut self.data.favorite_folders, folder, MAX_FAVORITES);
        }
        assert(self@ =~= (SettingsView {
            favorites: toggled(start.favorites, folder@, MAX_FAVORITES as int),
            ..start
        }));
    }

    /// Sets the window's size.
    pub fn set_window_size(&mut self, w: u32, h: u32)
        ensures
            final(self)@ == (SettingsView { window_size: Some((w, h)), ..old(self)@ }),
    {
        self.data.window_size = Some((w, h));
    }

    /// The window's size.
    pub fn window_size(&self) -> (r: Option<(u32, u32)>)
        ensures
            r == self@.window_size,
    {
        self.data.window_size
    }

    /// Sets the fullscreen mode.
    pub fn set_fullscreen(&mut self, fullscreen: bool)
        ensures
            final(self)@ == (SettingsView { fullscreen: Some(fullscreen), ..old(self)@ }),
    {
        self.data.fullscreen = Some(fullscreen);
    }
}

/// The file that the settings are saved in.
pub open spec fn settings_file(appdata: Option<PathView>, data_dir: Option<PathView>) -> PathView {
    (match appdata {
        Some(a) => a,
        None => match data_dir {
            Some(d) => d,
            None => PathView::current_dir(),
        },
    }).joined("ApertureNeoTurbo"@).joined("settings.json"@)
}

/// The settings lie in the program's folder, in the first of the folders for application
/// data that there is, or else in the current folder.
pub proof fn settings_have_their_place(a: PathView, d: PathView)
    ensures
        ({
            let below = seq![
                crate::path::PartView::Normal("ApertureNeoTurbo"@),
                crate::path::PartView::Normal("settings.json"@),
            ];
            &&& settings_file(Some(a), None).parts() == a.parts() + below
            &&& settings_file(Some(a), Some(d)).parts() == a.parts() + below
            &&& settings_file(None, Some(d)).parts() == d.parts() + below
            &&& settings_file(None, None).parts() == PathView::current_dir().parts() + below
        }),
{
    settings_below(a);
    settings_below(d);
    settings_below(PathView::current_dir());
}

proof fn settings_below(base: PathView)
    ensures
        base.joined("ApertureNeoTurbo"@).joined("settings.json"@).parts() == base.parts() + seq![
            crate::path::PartView::Normal("ApertureNeoTurbo"@),
            crate::path::PartView::Normal("settings.json"@),
        ],
{
    let f = base.joined("ApertureNeoTurbo"@);
    crate::path::joined_law(base, "ApertureNeoTurbo"@);
    crate::path::joined_law(f, "settings.json"@);
    assert(f.joined("settings.json"@).parts() =~= base.parts() + seq![
        crate::path::PartView::Normal("ApertureNeoTurbo"@),
        crate::path::PartView::Normal("settings.json"@),
    ]);
}

/// The file that the settings are saved in, given the user's folders for application
/// data; without any, it lies below the current folder.
pub fn settings_path(appdata: Option<FilePath>, data_dir: Option<FilePath>) -> (r: FilePath)
    ensures
        r@ == settings_file(
            match appdata {
                Some(a) => Some(a@),
                None => None,
            },
            match data_dir {
                Some(d) => Some(d@),
                None => None,
            },
        ),
{
    let base = match appdata {
        Some(a) => a,
        None => match data_dir {
            Some(d) => d,
            None => FilePath::current_dir(),
        },
    };
    base.join("ApertureNeoTurbo").join("settings.json")
}

} // verus!
