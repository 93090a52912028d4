//! The folder tree: favorites, recent folders and drives. Subfolders are loaded when
//! a folder is first expanded.

use vstd::prelude::*;
use crate::actions::{ActionView, UiAction, ROOT_FAVORITES, ROOT_RECENT, ROOT_THIS_PC};
use crate::fs::{EntryView, Listing, ListingView};
use crate::path::{FilePath, PartView, PathView};
use crate::sort::{sort_stably, Ranked};
use crate::text::{chars_of, decimal_text};

verus! {

/// One folder of the tree. A folder without children has not been loaded, or has none.
#[derive(Debug)]
pub struct TreeNode {
    pub path: FilePath,
    pub display_name: String,
    pub is_dir: bool,
    pub children: Option<Vec<TreeNode>>,
    pub loading: bool,
}

impl TreeNode {
    /// The node is a folder of this path and name, with nothing loaded yet.
    pub open spec fn is_fresh(self, path: PathView, name: Seq<char>) -> bool {
        &&& self.path@ == path
        &&& self.display_name@ == name
        &&& self.is_dir
        &&& self.children is Some
        &&& self.children->0@.len() == 0
        &&& !self.loading
    }

    /// A folder with nothing loaded yet.
    pub fn root(path: FilePath, display_name: String) -> (r: Self)
        ensures
            r.is_fresh(path@, display_name@),
    {
        TreeNode { path, display_name, is_dir: true, children: Some(Vec::new()), loading: false }
    }
}

/// The name that a folder of a list is shown with: its own, or else its whole path.
pub open spec fn leaf_name(path: PathView) -> Seq<char> {
    match crate::path::name_of(path.parts()) {
        Some(n) => n,
        None => path.text(),
    }
}

/// The nodes are those of a list of folders.
pub open spec fn are_leaves(nodes: Seq<TreeNode>, folders: Seq<PathView>) -> bool {
    &&& nodes.len() == folders.len()
    &&& forall|i: int|
        0 <= i < nodes.len() ==> (#[trigger] nodes[i]).is_fresh(folders[i], leaf_name(folders[i]))
}

/// The letters of the drives.
pub open spec fn letters() -> Seq<char> {
    "ABCDEFGHIJKLMNOPQRSTUVWXYZ"@
}

/// The name of a drive.
pub open spec fn drive_name(i: int) -> Seq<char> {
    seq![letters()[i]] + ":"@
}

/// The root folder of a drive.
pub open spec fn drive_path(i: int) -> PathView {
    PathView::drive_root(drive_name(i))
}

/// The numbers of the drives that are there, in order.
pub open spec fn drives_present(present: Seq<bool>) -> Seq<int>
    decreases present.len(),
{
    if present.len() == 0 {
        Seq::empty()
    } else {
        let front = drives_present(present.drop_last());
        if present.last() {
            front.push(present.len() - 1)
        } else {
            front
        }
    }
}

/// The nodes are those of the drives that are there.
pub open spec fn are_drives(nodes: Seq<TreeNode>, present: Seq<bool>) -> bool {
    let d = drives_present(present);
    &&& nodes.len() == d.len()
    &&& forall|i: int|
        0 <= i < nodes.len() ==> (#[trigger] nodes[i]).is_fresh(drive_path(d[i]), drive_name(d[i]))
}

/// A subfolder.
pub struct SubDir {
    pub name: String,
    pub path: FilePath,
}

/// The mathematical counterpart of [`SubDir`].
pub struct SubDirView {
    pub name: Seq<char>,
    pub path: PathView,
}

impl View for SubDir {
    type V = SubDirView;

    open spec fn view(&self) -> SubDirView {
        SubDirView { name: self.name@, path: self.path@ }
    }
}

impl Ranked for SubDir {
    open spec fn key(v: SubDirView) -> Seq<PartView> {
        seq![PartView::Normal(v.name)]
    }

    fn key_at_most(&self, other: &Self) -> (r: bool) {
        proof {
            let a = Self::key(self@);
            let b = Self::key(other@);
            assert(a.drop_first() =~= Seq::<PartView>::empty());
            assert(b.drop_first() =~= Seq::<PartView>::empty());
            reveal_with_fuel(crate::path::path_le, 2);
            crate::order::chars_le_reflexive(self@.name);
        }
        crate::order::text_at_most(self.name.as_str(), other.name.as_str())
    }
}

/// An entry that is shown as a subfolder: a folder with a name that is not hidden.
pub open spec fn is_shown(e: EntryView) -> bool {
    &&& e.is_dir
    &&& !e.hidden
    &&& match crate::path::name_of(e.path.parts()) {
        Some(n) => n.len() == 0 || n[0] != '.',
        None => false,
    }
}

/// The subfolder of an entry.
pub open spec fn subdir_of(e: EntryView) -> SubDirView {
    SubDirView { name: crate::path::name_of(e.path.parts())->0, path: e.path }
}

/// The subfolders of a folder, by name.
pub open spec fn subdirs_of(listing: ListingView) -> Seq<SubDirView> {
    match listing {
        ListingView::Entries(s) => crate::sort::stable_sort::<SubDir>(
            s.filter(|e: EntryView| is_shown(e)).map_values(|e: EntryView| subdir_of(e)),
        ),
        _ => Seq::empty(),
    }
}

/// The nodes are those of subfolders.
pub open spec fn are_subdirs(nodes: Seq<TreeNode>, subdirs: Seq<SubDirView>) -> bool {
    &&& nodes.len() == subdirs.len()
    &&& forall|i: int|
        0 <= i < nodes.len() ==> (#[trigger] nodes[i]).is_fresh(subdirs[i].path, subdirs[i].name)
}

/// The subfolders of a folder are exactly its folders that are not hidden, and their
/// names ascend.
pub proof fn subdirs_law(entries: Seq<EntryView>)
    ensures
        crate::sort::ascending::<SubDir>(subdirs_of(ListingView::Entries(entries))),
        subdirs_of(ListingView::Entries(entries)).to_multiset() =~= entries.filter(
            |e: EntryView| is_shown(e),
        ).map_values(|e: EntryView| subdir_of(e)).to_multiset(),
{
    crate::sort::stable_sort_law::<SubDir>(
        entries.filter(|e: EntryView| is_shown(e)).map_values(|e: EntryView| subdir_of(e)),
    );
}

fn starts_with_dot(name: &str) -> (r: bool)
    ensures
        r == (name@.len() > 0 && name@[0] == '.'),
{
    let x: Vec<char> = chars_of(name);
    x.len() > 0 && x[0] == '.'
}

/// Makes the nodes for the subfolders of a folder.
pub fn enumerate_subdirs(listing: Listing) -> (r: Vec<TreeNode>)
    ensures
        are_subdirs(r@, subdirs_of(listing@)),
{
    match listing {
        Listing::NotADirectory => Vec::new(),
        Listing::Unreadable => Vec::new(),
        Listing::Entries(entries) => {
            let ghost all = crate::sort::views(entries@);
            let ghost f = |e: EntryView| is_shown(e);
            let ghost g = |e: EntryView| subdir_of(e);
            let mut found: Vec<SubDir> = Vec::new();
            assert(crate::sort::views(found@) =~= all.take(0).filter(f).map_values(g)) by {
                reveal(Seq::filter);
            }
            for e in it: entries
                invariant
                    all == crate::sort::views(it.seq()),
                    f == (|e: EntryView| is_shown(e)),
                    g == (|e: EntryView| subdir_of(e)),
                    crate::sort::views(found@) == all.take(it.index()).filter(f).map_values(g),
            {
                let ghost i = it.index();
                let ghost before = found@;
                let ghost ev = e@;
                assert(all[i] == ev);
                assert(all.take(i + 1).drop_last() =~= all.take(i));
                reveal(Seq::filter);
                if e.is_dir && !e.hidden {
                    let name: Option<String> = match e.path.file_name() {
                        Some(n) => if starts_with_dot(n) {
                            None
                        } else {
                            Some(n.to_owned())
                        },
                        None => None,
                    };
                    match name {
                        Some(name) => {
                            let sub = SubDir { name, path: e.path };
                            let ghost sv = sub@;
                            found.push(sub);
                            assert(crate::sort::views(found@) =~= crate::sort::views(before).push(
                                sv,
                            ));
                            assert(all.take(i + 1).filter(f).map_values(g) =~= all.take(i).filter(
                                f,
                            ).map_values(g).push(g(ev)));
                        },
                        None => {},
                    }
                }
            }
            assert(all.take(all.len() as int) =~= all);
            let sorted = sort_stably(found);
            let ghost order = crate::sort::views(sorted@);
            let mut out: Vec<TreeNode> = Vec::new();
            for s in it: sorted
                invariant
                    order == crate::sort::views(it.seq()),
                    out@.len() == it.index(),
                    forall|j: int|
                        0 <= j < out@.len() ==> (#[trigger] out@[j]).is_fresh(
                            order[j].path,
                            order[j].name,
                        ),
            {
                assert(order[it.index()] == s@);
                out.push(TreeNode::root(s.path, s.name));
            }
            out
        },
    }
}

/// The folders expanded under one root.
pub open spec fn open_set(list: Seq<FilePath>) -> Set<Seq<PartView>> {
    ids(list).to_set()
}

/// What the paths of a list are compared by.
pub open spec fn ids(list: Seq<FilePath>) -> Seq<Seq<PartView>> {
    Seq::new(list.len(), |i: int| list[i]@.parts())
}

/// The folder tree.
pub struct FileTree {
    /// Favorites, recent folders, drives.
    pub roots: Vec<TreeNode>,
    /// The folders expanded under each root.
    pub expanded: Vec<Vec<FilePath>>,
    /// The folder to scroll to among the drives.
    pub reveal_target: Option<FilePath>,
    /// The folder to scroll to among the recent ones.
    pub recent_scroll_target: Option<FilePath>,
    /// The list is to be scrolled to its top.
    pub scroll_to_top: bool,
}

/// What the tree remembers besides its nodes.
#[verifier::ext_equal]
pub struct TreeView {
    /// The folders expanded under each root.
    pub expanded: Seq<Set<Seq<PartView>>>,
    /// The folder to scroll to among the drives.
    pub revealing: Option<Seq<PartView>>,
    /// The folder to scroll to among the recent ones.
    pub recent_scroll: Option<Seq<PartView>>,
    /// The list is to be scrolled to its top.
    pub to_top: bool,
}

impl View for FileTree {
    type V = TreeView;

    open spec fn view(&self) -> TreeView {
        TreeView {
            expanded: Seq::new(self.expanded@.len(), |i: int| open_set(self.expanded@[i]@)),
            revealing: match self.reveal_target {
                Some(p) => Some(p@.parts()),
                None => None,
            },
            recent_scroll: match self.recent_scroll_target {
                Some(p) => Some(p@.parts()),
                None => None,
            },
            to_top: self.scroll_to_top,
        }
    }
}

/// What is decided of a row before it is drawn.
#[derive(Debug, Clone, Copy, PartialEq, Eq, Structural)]
pub struct RowState {
    /// The node is one of the three roots.
    pub is_virtual_root: bool,
    /// The node is a favorite or recent folder, which opens on a click and does not expand.
    pub is_leaf_entry: bool,
    /// The node's subfolders are to be loaded now.
    pub must_load: bool,
    /// The node is expanded.
    pub is_open: bool,
    /// The node is the open folder, in the root that it was chosen from.
    pub is_current: bool,
    /// The node is the one to scroll to.
    pub is_reveal_target: bool,
}

/// A folder is an ancestor of another, and not the empty path.
pub open spec fn is_ancestor(a: Seq<PartView>, path: Seq<PartView>) -> bool {
    &&& 0 < a.len() < path.len()
    &&& a.is_prefix_of(path)
    &&& forall|k: int| a.len() <= k < path.len() ==> path[k] !is Prefix && path[k] !is RootDir
}

/// A row is for a favorite or a recent folder.
pub open spec fn is_leaf_row(path: Seq<PartView>, root_idx: usize, depth: usize) -> bool {
    (root_idx == ROOT_FAVORITES || root_idx == ROOT_RECENT) && depth == 1 && path.len() > 0
}

impl TreeView {
    /// The subfolders of a node are wanted: it is open, and they have not been loaded.
    /// The roots and the folders of a list have none to load.
    pub open spec fn must_load(self, node: TreeNode, root_idx: usize, depth: usize) -> bool {
        &&& depth > 0
        &&& self.expanded[root_idx as int].contains(node.path@.parts())
        &&& match node.children {
            Some(c) => c@.len() == 0,
            None => true,
        }
        &&& !node.loading
        &&& node.path@.parts().len() > 0
        &&& !is_leaf_row(node.path@.parts(), root_idx, depth)
    }

    /// What is decided of a row before it is drawn.
    pub open spec fn row_of(
        self,
        node: TreeNode,
        root_idx: usize,
        depth: usize,
        current: Option<PathView>,
        active_root: usize,
    ) -> RowState {
        let path = node.path@.parts();
        RowState {
            is_virtual_root: path.len() == 0,
            is_leaf_entry: is_leaf_row(path, root_idx, depth),
            must_load: self.must_load(node, root_idx, depth),
            is_open: self.expanded[root_idx as int].contains(path),
            is_current: active_root == root_idx && (match current {
                Some(c) => c.parts() == path,
                None => false,
            }),
            is_reveal_target: root_idx == ROOT_THIS_PC && self.revealing == Some(path),
        }
    }

    /// The state after the tree was drawn: what was scrolled to is done with.
    pub open spec fn drawn(self, revealed: bool, recent_scrolled: bool) -> TreeView {
        TreeView {
            revealing: if revealed {
                None
            } else {
                self.revealing
            },
            recent_scroll: if recent_scrolled {
                None
            } else {
                self.recent_scroll
            },
            ..self
        }
    }

    /// There are three roots.
    pub open spec fn valid(self) -> bool {
        self.expanded.len() == 3
    }

    /// The state after a folder was shown among the drives: all its ancestors are
    /// expanded, and it is scrolled to.
    pub open spec fn revealed(self, path: Seq<PartView>) -> TreeView {
        TreeView {
            expanded: self.expanded.update(
                ROOT_THIS_PC as int,
                self.expanded[ROOT_THIS_PC as int].union(
                    Set::new(|a: Seq<PartView>| is_ancestor(a, path)),
                ),
            ),
            revealing: Some(path),
            ..self
        }
    }

    /// The state after a folder's header was clicked: it opens or closes. Where a
    /// drive's folder closes over the open folder, the recent list scrolls to that.
    pub open spec fn clicked(
        self,
        root_idx: int,
        path: Seq<PartView>,
        current: Option<Seq<PartView>>,
    ) -> TreeView {
        let open = self.expanded[root_idx].contains(path);
        TreeView {
            expanded: self.expanded.update(
                root_idx,
                if open {
                    self.expanded[root_idx].remove(path)
                } else {
                    self.expanded[root_idx].insert(path)
                },
            ),
            recent_scroll: match current {
                Some(cur) => if open && root_idx == ROOT_THIS_PC && cur != path
                    && path.is_prefix_of(cur) {
                    Some(cur)
                } else {
                    self.recent_scroll
                },
                None => self.recent_scroll,
            },
            ..self
        }
    }
}

/// Showing a folder expands everything above it and closes nothing; clicking a
/// header twice leaves the folders expanded as they were.
pub proof fn tree_laws(
    t: TreeView,
    path: Seq<PartView>,
    root_idx: int,
    current: Option<Seq<PartView>>,
    other: Seq<PartView>,
)
    requires
        t.valid(),
        0 <= root_idx < 3,
    ensures
        t.revealed(path).valid(),
        t.clicked(root_idx, path, current).valid(),
        is_ancestor(other, path) ==> t.revealed(path).expanded[ROOT_THIS_PC as int].contains(other),
        t.expanded[root_idx].contains(other) ==> t.revealed(path).expanded[root_idx].contains(
            other,
        ),
        t.clicked(root_idx, path, current).clicked(root_idx, path, current).expanded
            == t.expanded,
{
    let once = t.clicked(root_idx, path, current);
    let twice = once.clicked(root_idx, path, current);
    assert(twice.expanded[root_idx] =~= t.expanded[root_idx]);
    assert(twice.expanded =~= t.expanded);
}

fn leaf_nodes(folders: &Vec<FilePath>) -> (r: Vec<TreeNode>)
    ensures
        are_leaves(r@, crate::sort::views(folders@)),
{
    let mut out: Vec<TreeNode> = Vec::new();
    let mut i: usize = 0;
    while i < folders.len()
        invariant
            i <= folders.len(),
            out@.len() == i,
            forall|j: int|
                0 <= j < i ==> (#[trigger] out@[j]).is_fresh(
                    folders@[j]@,
                    leaf_name(folders@[j]@),
                ),
        decreases folders.len() - i,
    {
        let name: String = match folders[i].file_name() {
            Some(n) => n.to_owned(),
            None => folders[i].display(),
        };
        out.push(TreeNode::root(folders[i].clone(), name));
        i += 1;
    }
    out
}

fn drive_nodes(present: &Vec<bool>) -> (r: Vec<TreeNode>)
    requires
        present.len() <= 26,
    ensures
        are_drives(r@, present@),
{
    proof {
        reveal_strlit("ABCDEFGHIJKLMNOPQRSTUVWXYZ");
    }
    let mut out: Vec<TreeNode> = Vec::new();
    let mut i: usize = 0;
    assert(present@.take(0) =~= Seq::<bool>::empty());
    while i < present.len()
        invariant
            letters().len() == 26,
            present.len() <= 26,
            i <= present.len(),
            are_drives(out@, present@.take(i as int)),
        decreases present.len() - i,
    {
        assert(present@.take(i + 1).drop_last() =~= present@.take(i as int));
        if present[i] {
            let mut name: String = "ABCDEFGHIJKLMNOPQRSTUVWXYZ".substring_char(
                i,
                i + 1,
            ).to_owned();
            name.append(":");
            assert(name@ =~= drive_name(i as int));
            let node = TreeNode::root(FilePath::drive_root(name.clone()), name);
            let ghost before = out@;
            out.push(node);
            assert forall|j: int| 0 <= j < out@.len() implies (#[trigger] out@[j]).is_fresh(
                drive_path(drives_present(present@.take(i + 1))[j]),
                drive_name(drives_present(present@.take(i + 1))[j]),
            ) by {
                if j < before.len() {
                    assert(out@[j] == before[j]);
                }
            }
        }
        i += 1;
    }
    assert(present@.take(present@.len() as int) =~= present@);
    out
}

fn position_in(list: &Vec<FilePath>, path: &FilePath) -> (r: Option<usize>)
    ensures
        r matches Some(i) ==> i < list@.len() && list@[i as int]@.parts() == path@.parts(),
        r is None ==> !open_set(list@).contains(path@.parts()),
        r is Some ==> open_set(list@).contains(path@.parts()),
{
    let ghost v = ids(list@);
    let mut i: usize = 0;
    while i < list.len()
        invariant
            v == ids(list@),
            i <= list.len(),
            forall|j: int| 0 <= j < i ==> #[trigger] v[j] != path@.parts(),
        decreases list.len() - i,
    {
        assert(v[i as int] == list@[i as int]@.parts());
        if list[i].same(path) {
            assert(v.contains(path@.parts()));
            return Some(i);
        }
        i += 1;
    }
    None
}

fn expand(list: &mut Vec<FilePath>, path: FilePath)
    ensures
        open_set(final(list)@) == open_set(old(list)@).insert(path@.parts()),
{
    let ghost before = list@;
    let ghost pv = path@.parts();
    if position_in(list, &path).is_none() {
        list.push(path);
    }
    proof {
        let v = ids(before);
        let w = ids(list@);
        assert forall|x: Seq<PartView>| open_set(list@).contains(x) == open_set(before).insert(
            pv,
        ).contains(x) by {
            if w.contains(x) {
                let k = choose|k: int| 0 <= k < w.len() && w[k] == x;
                if k < v.len() {
                    assert(v[k] == w[k]);
                    assert(v.contains(x));
                }
            }
            if v.contains(x) {
                let k = choose|k: int| 0 <= k < v.len() && v[k] == x;
                assert(w[k] == v[k]);
                assert(w.contains(x));
            }
            if w.len() > v.len() {
                assert(w[v.len() as int] == pv);
                assert(w.contains(pv));
            }
        }
        assert(open_set(list@) =~= open_set(before).insert(pv));
    }
}

fn collapse(list: &mut Vec<FilePath>, path: &FilePath)
    ensures
        open_set(final(list)@) == open_set(old(list)@).remove(path@.parts()),
{
    let ghost all = list@;
    let mut kept: Vec<FilePath> = Vec::new();
    let mut i: usize = 0;
    while i < list.len()
        invariant
            list@ == all,
            i <= list.len(),
            forall|j: int|
                0 <= j < i && (#[trigger] all[j])@.parts() != path@.parts() ==> open_set(kept@).contains(all[j]@.parts()),
            forall|j: int|
                0 <= j < kept@.len() ==> open_set(all).contains((#[trigger] kept@[j])@.parts())
                    && kept@[j]@.parts() != path@.parts(),
        decreases list.len() - i,
    {
        if !list[i].same(path) {
            let ghost before = kept@;
            let copy = list[i].clone();
            let ghost cv = copy@.parts();
            assert(ids(all)[i as int] == cv);
            assert(ids(all).contains(cv));
            kept.push(copy);
            let ghost w = ids(kept@);
            assert(w[before.len() as int] == cv);
            assert(w.contains(cv));
            assert forall|j: int| 0 <= j < i && (#[trigger] all[j])@.parts() != path@.parts() implies open_set(
                kept@,
            ).contains(all[j]@.parts()) by {
                let v = ids(before);
                assert(v.contains(all[j]@.parts()));
                let k = choose|k: int| 0 <= k < v.len() && v[k] == all[j]@.parts();
                assert(w[k] == v[k]);
            }
        }
        i += 1;
    }
    proof {
        let v = ids(all);
        let w = ids(kept@);
        assert forall|x: Seq<PartView>| open_set(kept@).contains(x) == open_set(all).remove(
            path@.parts(),
        ).contains(x) by {
            if w.contains(x) {
                let k = choose|k: int| 0 <= k < w.len() && w[k] == x;
                assert(kept@[k]@.parts() == x);
            }
            if v.contains(x) && x != path@.parts() {
                let k = choose|k: int| 0 <= k < v.len() && v[k] == x;
                assert(all[k]@.parts() == x);
            }
        }
        assert(open_set(kept@) =~= open_set(all).remove(path@.parts()));
    }
    *list = kept;
}

impl FileTree {
    /// There are three roots with their expanded folders.
    pub open spec fn wf(&self) -> bool {
        self.roots@.len() == 3 && self.expanded@.len() == 3
    }

    /// The tree at the start: the lists are empty, and the drives are those that are
    /// there.
    pub fn new(present: &Vec<bool>) -> (r: Self)
        requires
            present.len() <= 26,
        ensures
            r.wf(),
            r.roots@.len() == 3,
            r.roots@[0].path@.parts().len() == 0,
            r.roots@[0].display_name@ == "Favorites"@,
            r.roots@[0].children is Some && r.roots@[0].children->0@.len() == 0,
            r.roots@[1].path@.parts().len() == 0,
            r.roots@[1].display_name@ == "Recent"@,
            r.roots@[1].children is Some && r.roots@[1].children->0@.len() == 0,
            r.roots@[2].path@.parts().len() == 0,
            r.roots@[2].display_name@ == "This PC"@,
            r.roots@[2].children is Some,
            are_drives(r.roots@[2].children->0@, present@),
            forall|i: int| 0 <= i < 3 ==> (#[trigger] r.roots@[i]).is_dir,
            r.roots@[0].loading && r.roots@[1].loading && !r.roots@[2].loading,
            r@ == (TreeView {
                expanded: seq![Set::empty(), Set::empty(), Set::empty()],
                revealing: None,
                recent_scroll: None,
                to_top: false,
            }),
    {
        let mut roots: Vec<TreeNode> = Vec::new();
        let mut fav = TreeNode::root(FilePath::empty(), "Favorites".to_owned());
        fav.loading = true;
        roots.push(fav);
        let mut recent = TreeNode::root(FilePath::empty(), "Recent".to_owned());
        recent.loading = true;
        roots.push(recent);
        let mut pc = TreeNode::root(FilePath::empty(), "This PC".to_owned());
        pc.children = Some(drive_nodes(present));
        roots.push(pc);
        let mut expanded: Vec<Vec<FilePath>> = Vec::new();
        expanded.push(Vec::new());
        expanded.push(Vec::new());
        expanded.push(Vec::new());
        let r = FileTree {
            roots,
            expanded,
            reveal_target: None,
            recent_scroll_target: None,
            scroll_to_top: false,
        };
        proof {
            assert forall|i: int| 0 <= i < 3 implies #[trigger] r@.expanded[i] == Set::<
                Seq<PartView>,
            >::empty() by {
                assert(r.expanded@[i]@.len() == 0);
                assert(r@.expanded[i] =~= Set::<Seq<PartView>>::empty());
            }
            assert(r@.expanded =~= seq![Set::empty(), Set::empty(), Set::empty()]);
        }
        r
    }

    fn set_children(&mut self, root: usize, nodes: Vec<TreeNode>)
        requires
            old(self).wf(),
            root < 3,
        ensures
            final(self).wf(),
            final(self)@ == old(self)@,
            final(self).roots@.len() == 3,
            final(self).roots@[root as int].children == Some(nodes),
            final(self).roots@[root as int].path == old(self).roots@[root as int].path,
            final(self).roots@[root as int].display_name
                == old(self).roots@[root as int].display_name,
            final(self).roots@[root as int].is_dir == old(self).roots@[root as int].is_dir,
            final(self).roots@[root as int].loading == old(self).roots@[root as int].loading,
            forall|i: int|
                0 <= i < 3 && i != root ==> #[trigger] final(self).roots@[i] == old(self).roots@[i],
    {
        self.roots[root].children = Some(nodes);
    }

    /// Shows a list of folders as the recent ones.
    pub fn refresh_recent(&mut self, folders: &Vec<FilePath>)
        requires
            old(self).wf(),
        ensures
            final(self).wf(),
            final(self)@ == old(self)@,
            final(self).roots@.len() == 3,
            final(self).roots@[1].children is Some,
            are_leaves(final(self).roots@[1].children->0@, crate::sort::views(folders@)),
            final(self).roots@[0] == old(self).roots@[0],
            final(self).roots@[2] == old(self).roots@[2],
    {
        let nodes = leaf_nodes(folders);
        self.set_children(ROOT_RECENT, nodes);
    }

    /// Shows a list of folders as the favorites.
    pub fn refresh_favorites(&mut self, folders: &Vec<FilePath>)
        requires
            old(self).wf(),
        ensures
            final(self).wf(),
            final(self)@ == old(self)@,
            final(self).roots@.len() == 3,
            final(self).roots@[0].children is Some,
            are_leaves(final(self).roots@[0].children->0@, crate::sort::views(folders@)),
            final(self).roots@[1] == old(self).roots@[1],
            final(self).roots@[2] == old(self).roots@[2],
    {
        let nodes = leaf_nodes(folders);
        self.set_children(ROOT_FAVORITES, nodes);
    }

    /// Shows a folder among the drives: expands all its ancestors and scrolls to it.
    pub fn reveal_path(&mut self, path: &FilePath)
        requires
            old(self).wf(),
        ensures
            final(self).wf(),
            final(self)@ == old(self)@.revealed(path@.parts()),
            final(self).roots@ == old(self).roots@,
    {
        let ghost start = self@;
        let ghost p = path@.parts();
        let ghost base = start.expanded[2];
        let mut at = path.clone();
        proof {
            assert(base =~= base.union(
                Set::new(|a: Seq<PartView>| is_ancestor(a, p) && a.len() >= p.len()),
            ));
            assert(self@.expanded[2] == base);
        }
        loop
            invariant
                self.wf(),
                self.roots@ == old(self).roots@,
                p == path@.parts(),
                start == old(self)@,
                start.expanded.len() == 3,
                base == start.expanded[2],
                at@.parts().len() <= p.len(),
                at@.parts() == p.take(at@.parts().len() as int),
                forall|k: int|
                    at@.parts().len() <= k < p.len() ==> p[k] !is Prefix && p[k] !is RootDir,
                self@ == (TreeView { expanded: self@.expanded, ..start }),
                self@.expanded == start.expanded.update(
                    2,
                    base.union(
                        Set::new(
                            |a: Seq<PartView>| is_ancestor(a, p) && a.len() >= at@.parts().len(),
                        ),
                    ),
                ),
            ensures
                forall|k: nat| 0 < k < at@.parts().len() ==> !is_ancestor(#[trigger] p.take(k as int), p),
            decreases at@.parts().len(),
        {
            let ghost n = at@.parts().len() as int;
            match at.parent() {
                None => {
                    proof {
                        assert forall|k: nat| 0 < k < at@.parts().len() implies !is_ancestor(
                            #[trigger] p.take(k as int),
                            p,
                        ) by {
                            assert(at@.parts().last() == p[n - 1]);
                            assert(p[n - 1] is Prefix || p[n - 1] is RootDir);
                        }
                    }
                    break ;
                },
                Some(parent) => {
                    let ghost pv = parent@.parts();
                    proof {
                        crate::path::up_law(at@);
                    }
                    assert(at@.parts().last() == p[n - 1]);
                    assert(pv =~= p.take(n - 1));
                    let ghost before = self@;
                    let ghost lists = self.expanded@;
                    if !parent.is_empty() {
                        let copy = parent.clone();
                        let mut list: Vec<FilePath> = Vec::new();
                        std::mem::swap(&mut list, &mut self.expanded[2]);
                        expand(&mut list, copy);
                        self.expanded[2] = list;
                        assert(is_ancestor(pv, p));
                    }
                    proof {
                        let s1 = Set::new(|a: Seq<PartView>| is_ancestor(a, p) && a.len() >= n);
                        let s2 = Set::new(|a: Seq<PartView>| is_ancestor(a, p) && a.len() >= n - 1);
                        assert forall|a: Seq<PartView>| s2.contains(a) implies s1.contains(a) || a
                            == pv by {
                            if a.len() == n - 1 {
                                assert(a =~= pv);
                            }
                        }
                        assert(before.expanded[2] == base.union(s1));
                        if n - 1 > 0 {
                            assert(base.union(s1).insert(pv) =~= base.union(s2));
                        } else {
                            assert(base.union(s1) =~= base.union(s2));
                        }
                        assert(self@.expanded[2] == base.union(s2));
                        assert forall|i: int| 0 <= i < 3 && i != 2 implies self@.expanded[i]
                            == start.expanded[i] by {
                            assert(self.expanded@[i] == lists[i]);
                            assert(before.expanded[i] == open_set(lists[i]@));
                        }
                        assert(self@.expanded =~= start.expanded.update(2, base.union(s2)));
                    }
                    at = parent;
                },
            }
        }
        proof {
            let m = at@.parts().len();
            let s1 = Set::new(|a: Seq<PartView>| is_ancestor(a, p) && a.len() >= m);
            let all = Set::new(|a: Seq<PartView>| is_ancestor(a, p));
            assert forall|a: Seq<PartView>| all.contains(a) implies s1.contains(a) by {
                if a.len() < m {
                    assert(a =~= p.take(a.len() as int));
                    assert(!is_ancestor(p.take(a.len() as int), p));
                }
            }
            assert(s1 =~= all);
        }
        self.reveal_target = Some(path.clone());
        assert(self@ =~= start.revealed(p));
    }

    /// Loads the subfolders of a folder, given what a look at it found. The three
    /// roots have other contents and are only marked.
    pub fn load_children(node: &mut TreeNode, listing: Listing)
        ensures
            final(node).path == old(node).path,
            final(node).display_name == old(node).display_name,
            final(node).is_dir == old(node).is_dir,
            if !old(node).is_dir {
                *final(node) == *old(node)
            } else if old(node).path@.parts().len() == 0 {
                !final(node).loading && final(node).children == old(node).children
            } else {
                &&& final(node).loading == old(node).loading
                &&& final(node).children is Some
                &&& are_subdirs(final(node).children->0@, subdirs_of(listing@))
            },
    {
        if !node.is_dir {
            return ;
        }
        if node.path.is_empty() {
            node.loading = false;
            return ;
        }
        node.children = Some(enumerate_subdirs(listing));
    }

    /// Loads the subfolders of a folder, as [`Self::load_children`] does, and marks it:
    /// whatever was found, no row asks to load it again.
    pub fn load_once(node: &mut TreeNode, listing: Listing)
        ensures
            final(node).path == old(node).path,
            final(node).display_name == old(node).display_name,
            final(node).is_dir == old(node).is_dir,
            final(node).loading,
            if !old(node).is_dir || old(node).path@.parts().len() == 0 {
                final(node).children == old(node).children
            } else {
                &&& final(node).children is Some
                &&& are_subdirs(final(node).children->0@, subdirs_of(listing@))
            },
            forall|t: TreeView, root_idx: usize, depth: usize|
                !#[trigger] t.must_load(*final(node), root_idx, depth),
    {
        Self::load_children(node, listing);
        node.loading = true;
    }

    /// Decides how a node is drawn.
    pub fn row_state(
        &self,
        node: &TreeNode,
        root_idx: usize,
        depth: usize,
        current: Option<&FilePath>,
        active_root: usize,
    ) -> (r: RowState)
        requires
            self.wf(),
            root_idx < 3,
        ensures
            r == self@.row_of(
                *node,
                root_idx,
                depth,
                match current {
                    Some(c) => Some(c@),
                    None => None,
                },
                active_root,
            ),
    {
        let is_virtual_root: bool = node.path.is_empty();
        let is_leaf_entry: bool = (root_idx == ROOT_FAVORITES || root_idx == ROOT_RECENT) && depth
            == 1 && !is_virtual_root;
        let is_open: bool = position_in(&self.expanded[root_idx], &node.path).is_some();
        let unloaded: bool = match &node.children {
            Some(c) => c.len() == 0,
            None => true,
        };
        let is_current: bool = match current {
            Some(c) => active_root == root_idx && c.same(&node.path),
            None => false,
        };
        let is_reveal_target: bool = match &self.reveal_target {
            Some(p) => root_idx == ROOT_THIS_PC && p.same(&node.path),
            None => false,
        };
        RowState {
            is_virtual_root,
            is_leaf_entry,
            must_load: depth > 0 && is_open && unloaded && !node.loading && !is_virtual_root
                && !is_leaf_entry,
            is_open,
            is_current,
            is_reveal_target,
        }
    }

    /// Takes a click on the header of a node: it opens or closes, and a folder below
    /// the roots is opened in the viewer.
    pub fn header_clicked(
        &mut self,
        path: &FilePath,
        root_idx: usize,
        depth: usize,
        current: Option<&FilePath>,
    ) -> (r: Option<UiAction>)
        requires
            old(self).wf(),
            root_idx < 3,
        ensures
            final(self).wf(),
            final(self).roots@ == old(self).roots@,
            final(self)@ == old(self)@.clicked(
                root_idx as int,
                path@.parts(),
                match current {
                    Some(c) => Some(c@.parts()),
                    None => None,
                },
            ),
            r.is_some() == (depth > 0),
            r matches Some(a) ==> a@ == ActionView::FolderChosen(path@, root_idx),
    {
        let ghost start = self@;
        let is_open: bool = position_in(&self.expanded[root_idx], path).is_some();
        let mut list: Vec<FilePath> = Vec::new();
        std::mem::swap(&mut list, &mut self.expanded[root_idx]);
        if is_open {
            collapse(&mut list, path);
        } else {
            expand(&mut list, path.clone());
        }
        self.expanded[root_idx] = list;
        match current {
            Some(cur) => {
                if is_open && root_idx == ROOT_THIS_PC && !cur.same(path) && cur.starts_with(path) {
                    self.recent_scroll_target = Some(cur.clone());
                }
            },
            None => {},
        }
        proof {
            let want = start.clicked(
                root_idx as int,
                path@.parts(),
                match current {
                    Some(c) => Some(c@.parts()),
                    None => None,
                },
            );
            assert(self@.expanded =~= want.expanded);
            assert(self@ =~= want);
        }
        if depth > 0 {
            Some(UiAction::FolderChosen(path.clone(), root_idx))
        } else {
            None
        }
    }

    /// Notes that the list is to be scrolled to its top.
    pub fn request_top(&mut self)
        requires
            old(self).wf(),
        ensures
            final(self).wf(),
            final(self).roots@ == old(self).roots@,
            final(self)@ == (TreeView { to_top: true, ..old(self)@ }),
    {
        self.scroll_to_top = true;
    }

    /// Whether the list is to be scrolled to its top; asks only once.
    pub fn take_scroll_to_top(&mut self) -> (r: bool)
        requires
            old(self).wf(),
        ensures
            final(self).wf(),
            final(self).roots@ == old(self).roots@,
            r == old(self)@.to_top,
            final(self)@ == (TreeView { to_top: false, ..old(self)@ }),
    {
        let r: bool = self.scroll_to_top;
        self.scroll_to_top = false;
        r
    }

    /// Whether the recent list is to be scrolled to a folder.
    pub fn is_recent_scroll(&self, path: &FilePath, root_idx: usize) -> (r: bool)
        ensures
            r == (root_idx == ROOT_RECENT && self@.recent_scroll == Some(path@.parts())),
    {
        match &self.recent_scroll_target {
            Some(p) => root_idx == ROOT_RECENT && p.same(path),
            None => false,
        }
    }

    /// Notes what was scrolled to while the tree was drawn. What was not drawn is
    /// tried again with the next frame.
    pub fn after_draw(&mut self, revealed: bool, recent_scrolled: bool)
        requires
            old(self).wf(),
        ensures
            final(self).wf(),
            final(self).roots@ == old(self).roots@,
            final(self)@ == old(self)@.drawn(revealed, recent_scrolled),
    {
        if revealed {
            self.reveal_target = None;
        }
        if recent_scrolled {
            self.recent_scroll_target = None;
        }
    }
}

/// The text that tells a row apart from all others.
pub open spec fn row_id(
    path: PathView,
    name: Seq<char>,
    root_idx: usize,
    depth: usize,
) -> Seq<char> {
    let r = crate::text::decimal(root_idx as nat);
    if path.parts().len() == 0 {
        "tree-root-r"@ + r + "-"@ + crate::text::decimal(depth as nat) + "-"@ + name
    } else {
        "tree-r"@ + r + "-"@ + path.text()
    }
}

/// Writes the text that tells a row apart from all others.
pub fn id_salt(node: &TreeNode, root_idx: usize, depth: usize) -> (r: String)
    ensures
        r@ == row_id(node.path@, node.display_name@, root_idx, depth),
{
    let number: String = decimal_text(root_idx as u64);
    if node.path.is_empty() {
        let level: String = decimal_text(depth as u64);
        let mut out: String = "tree-root-r".to_owned();
        out.append(number.as_str());
        out.append("-");
        out.append(level.as_str());
        out.append("-");
        out.append(node.display_name.as_str());
        out
    } else {
        let shown: String = node.path.display();
        let mut out: String = "tree-r".to_owned();
        out.append(number.as_str());
        out.append("-");
        out.append(shown.as_str());
        out
    }
}

/// Showing a folder among the drives scrolls to it and opens all the folders above it
/// there, and no others. The other roots stay, and so does what else is to be scrolled to.
pub proof fn showing_a_folder(t: TreeView, path: Seq<PartView>, other: Seq<PartView>)
    requires
        t.valid(),
    ensures
        ({
            let r = t.revealed(path);
            &&& r.revealing == Some(path)
            &&& r.recent_scroll == t.recent_scroll && r.to_top == t.to_top
            &&& r.expanded.len() == 3
            &&& r.expanded[0] == t.expanded[0]
            &&& r.expanded[1] == t.expanded[1]
            &&& r.expanded[2].contains(other) <==> t.expanded[2].contains(other) || is_ancestor(
                other,
                path,
            )
        }),
{
}

/// The folders above a folder: the beginnings of its path, down from its root. The folder
/// itself is none of them, nor is a drive without its root.
pub proof fn folders_above(path: Seq<PartView>, a: Seq<PartView>, k: int)
    ensures
        is_ancestor(a, path) ==> a == path.take(a.len() as int) && 0 < a.len() < path.len(),
        !is_ancestor(path, path),
        0 < k < path.len() && (forall|j: int| k <= j < path.len() ==> path[j] is Normal)
            ==> is_ancestor(path.take(k), path),
        0 < k < path.len() && path[k] is RootDir ==> !is_ancestor(path.take(k), path),
{
    if is_ancestor(a, path) {
        assert(a =~= path.take(a.len() as int));
    }
    if 0 < k < path.len() {
        assert(path.take(k).is_prefix_of(path)) by {
            assert(path.subrange(0, k) =~= path.take(k));
        }
    }
}

/// A click on a folder opens it if it was closed, and closes it if it was open; other
/// folders, and the other roots, stay as they are.
pub proof fn clicking_a_folder(
    t: TreeView,
    root: int,
    path: Seq<PartView>,
    current: Option<Seq<PartView>>,
    other: Seq<PartView>,
    i: int,
)
    requires
        t.valid(),
        0 <= root < 3,
        0 <= i < 3,
    ensures
        ({
            let r = t.clicked(root, path, current);
            &&& r.expanded.len() == 3
            &&& r.expanded[root].contains(path) == !t.expanded[root].contains(path)
            &&& other != path ==> r.expanded[root].contains(other) == t.expanded[root].contains(
                other,
            )
            &&& i != root ==> r.expanded[i] == t.expanded[i]
            &&& r.revealing == t.revealing && r.to_top == t.to_top
        }),
{
}

/// The recent list scrolls to the open folder when a folder above it is closed among the
/// drives, and by no other click.
pub proof fn closing_over_the_open_folder(
    t: TreeView,
    root: int,
    path: Seq<PartView>,
    cur: Seq<PartView>,
)
    requires
        t.valid(),
        0 <= root < 3,
    ensures
        ({
            let r = t.clicked(root, path, Some(cur));
            let closes = t.expanded[root].contains(path);
            let above = path.len() < cur.len() && path == cur.take(path.len() as int);
            &&& closes && root == 2 && above ==> r.recent_scroll == Some(cur)
            &&& !(closes && root == 2 && above) ==> r.recent_scroll == t.recent_scroll
            &&& t.clicked(root, path, None).recent_scroll == t.recent_scroll
        }),
{
    if path.is_prefix_of(cur) && path.len() == cur.len() {
        assert(cur =~= path);
    }
    if path.is_prefix_of(cur) {
        assert(path =~= cur.take(path.len() as int));
    }
    if path.len() <= cur.len() && path == cur.take(path.len() as int) {
        assert(cur.subrange(0, path.len() as int) =~= path);
    }
}

/// A folder's subfolders are loaded when it is open and has none yet, and not while they
/// are being loaded. The roots load nothing, nor do the folders of the two lists, which
/// are the rows right below their roots.
pub proof fn folders_that_load(t: TreeView, node: TreeNode, root: usize, depth: usize)
    requires
        node.children is Some,
    ensures
        t.must_load(node, root, depth) ==> depth > 0 && !node.loading && node.children->0@.len()
            == 0 && node.path@.parts().len() > 0 && t.expanded[root as int].contains(
            node.path@.parts(),
        ),
        depth == 1 && root < 2 ==> !t.must_load(node, root, depth),
        depth > 0 && (root >= 2 || depth > 1) && node.path@.parts().len() > 0 && !node.loading
            && node.children->0@.len() == 0 ==> t.must_load(node, root, depth)
            == t.expanded[root as int].contains(node.path@.parts()),
        is_leaf_row(node.path@.parts(), root, depth) <==> root < 2 && depth == 1
            && node.path@.parts().len() > 0,
{
}

/// Folders that are shown among the subfolders: those that are not hidden, neither by the
/// system nor by a name that begins with a full stop. Files are not.
pub proof fn hidden_folders_are_left_out(e: EntryView, name: Seq<char>)
    ensures
        crate::path::name_of(e.path.parts()) == Some(name) ==> (is_shown(e) <==> e.is_dir
            && !e.hidden && !(name.len() > 0 && name[0] == '.')),
        crate::path::name_of(e.path.parts()) is None ==> !is_shown(e),
        is_shown(e) ==> subdir_of(e).path == e.path && Some(subdir_of(e).name)
            == crate::path::name_of(e.path.parts()),
{
}

/// A subfolder is among some.
pub open spec fn has_subdir(subdirs: Seq<SubDirView>, d: SubDirView) -> bool {
    exists|k: int| 0 <= k < subdirs.len() && #[trigger] subdirs[k] == d
}

/// Every folder that is shown is among the subfolders, and their names ascend. A folder
/// that is not there or cannot be read has none.
pub proof fn subfolders_are_listed(entries: Seq<EntryView>, i: int)
    requires
        0 <= i < entries.len(),
    ensures
        is_shown(entries[i]) ==> has_subdir(
            subdirs_of(ListingView::Entries(entries)),
            subdir_of(entries[i]),
        ),
        crate::sort::ascending::<SubDir>(subdirs_of(ListingView::Entries(entries))),
        subdirs_of(ListingView::NotADirectory).len() == 0,
        subdirs_of(ListingView::Unreadable).len() == 0,
{
    broadcast use vstd::seq_lib::group_to_multiset_ensures;

    let f = |e: EntryView| is_shown(e);
    let g = |e: EntryView| subdir_of(e);
    let kept = entries.filter(f);
    let r = subdirs_of(ListingView::Entries(entries));
    subdirs_law(entries);
    crate::seqs::filter_keeps_members(entries, f);
    if is_shown(entries[i]) {
        assert(entries.contains(entries[i]));
        assert(kept.contains(entries[i]));
        let k = choose|k: int| 0 <= k < kept.len() && kept[k] == entries[i];
        let d = subdir_of(entries[i]);
        assert(kept.map_values(g)[k] == d);
        assert(kept.map_values(g).to_multiset().contains(d));
        assert(r.to_multiset().contains(d));
        assert(r.contains(d));
    }
}

/// The order of subfolders is that of their names.
pub proof fn subfolders_ascend_by_name(a: SubDirView, b: SubDirView)
    ensures
        crate::path::path_le(<SubDir as Ranked>::key(a), <SubDir as Ranked>::key(b))
            <==> crate::order::chars_le(a.name, b.name),
{
    let x = <SubDir as Ranked>::key(a);
    let y = <SubDir as Ranked>::key(b);
    assert(x.take(0) =~= y.take(0));
    if a.name == b.name {
        crate::order::chars_le_reflexive(a.name);
        crate::path::path_le_reflexive(x);
    } else {
        crate::path::first_component_decides(x, y, 0);
    }
}

/// The drives that are listed are those that are there, from A to Z.
pub proof fn drives_are_listed(present: Seq<bool>)
    ensures
        forall|k: int|
            0 <= k < drives_present(present).len() ==> 0 <= #[trigger] drives_present(present)[k]
                < present.len() && present[drives_present(present)[k]],
        forall|i: int|
            0 <= i < present.len() && #[trigger] present[i] ==> drives_present(present).contains(i),
        forall|j: int, k: int|
            0 <= j < k < drives_present(present).len() ==> #[trigger] drives_present(present)[j]
                < #[trigger] drives_present(present)[k],
    decreases present.len(),
{
    if present.len() > 0 {
        let front = present.drop_last();
        drives_are_listed(front);
        let r = drives_present(present);
        let u = drives_present(front);
        assert forall|k: int| 0 <= k < r.len() implies 0 <= #[trigger] r[k] < present.len()
            && present[r[k]] by {
            if k < u.len() {
                assert(r[k] == u[k]);
                assert(front[u[k]] == present[u[k]]);
            }
        }
        assert forall|i: int| 0 <= i < present.len() && #[trigger] present[i] implies r.contains(
            i,
        ) by {
            if i < front.len() {
                assert(front[i]);
                assert(u.contains(i));
                let k = choose|k: int| 0 <= k < u.len() && u[k] == i;
                assert(r[k] == i);
            } else {
                assert(r[r.len() - 1] == i);
            }
        }
        assert forall|j: int, k: int| 0 <= j < k < r.len() implies #[trigger] r[j]
            < #[trigger] r[k] by {
            assert(r[j] == u[j]);
            if k < u.len() {
                assert(r[k] == u[k]);
            }
        }
    }
}

/// A drive is named by its letter and a colon; its folder is its root, and is written
/// with a backslash behind that.
pub proof fn drives_are_named(i: int)
    requires
        0 <= i < 26,
    ensures
        drive_name(i).len() == 2,
        drive_name(i)[0] as int == 'A' as int + i,
        drive_name(i)[1] == ':',
        drive_path(i).text() == drive_name(i) + "\\"@,
        crate::path::parent_of(drive_path(i)) is None,
        leaf_name(drive_path(i)) == drive_path(i).text(),
{
    reveal_strlit("ABCDEFGHIJKLMNOPQRSTUVWXYZ");
    reveal_strlit(":");
    crate::path::plain_paths(drive_name(i));
    crate::path::tops_have_no_parent(drive_path(i), drive_name(i));
    assert(drive_path(i).parts().last() == PartView::RootDir);
}

/// The nodes of a list show its folders, one for each, in order, by their names. Nothing
/// is loaded for them.
pub proof fn listed_folders_are_shown(nodes: Seq<TreeNode>, folders: Seq<PathView>, i: int)
    requires
        are_leaves(nodes, folders),
        0 <= i < folders.len(),
    ensures
        nodes.len() == folders.len(),
        nodes[i].path@ == folders[i],
        nodes[i].is_dir && !nodes[i].loading && nodes[i].children is Some,
        crate::path::name_of(folders[i].parts()) matches Some(n) ==> nodes[i].display_name@ == n,
        crate::path::name_of(folders[i].parts()) is None ==> nodes[i].display_name@
            == folders[i].text(),
{
    assert(nodes[i].is_fresh(folders[i], leaf_name(folders[i])));
}

/// Rows of one root are told apart by their paths.
pub proof fn rows_are_told_apart(
    p: PathView,
    q: PathView,
    a: Seq<char>,
    b: Seq<char>,
    root: usize,
    d: usize,
    e: usize,
)
    requires
        p.parts().len() > 0,
        q.parts().len() > 0,
    ensures
        row_id(p, a, root, d) == row_id(q, b, root, e) <==> p.text() == q.text(),
{
    let head = "tree-r"@ + crate::text::decimal(root as nat) + "-"@;
    let x = row_id(p, a, root, d);
    let y = row_id(q, b, root, e);
    let n = head.len() as int;
    assert(x =~= head + p.text());
    assert(y =~= head + q.text());
    assert(x.skip(n) =~= p.text());
    assert(y.skip(n) =~= q.text());
}

/// The open folder is marked only under the root that it was chosen from, and the folder
/// to scroll to only among the drives; there its row is the target right after it was
/// shown, until it was drawn.
pub proof fn rows_are_marked(
    t: TreeView,
    node: TreeNode,
    root: usize,
    depth: usize,
    current: PathView,
    active: usize,
)
    requires
        t.valid(),
        root < 3,
    ensures
        ({
            let path = node.path@.parts();
            let row = t.row_of(node, root, depth, Some(current), active);
            &&& row.is_current <==> active == root && current.same(node.path@)
            &&& !t.row_of(node, root, depth, None, active).is_current
            &&& row.is_reveal_target ==> root == 2
            &&& row.is_virtual_root <==> path.len() == 0
            &&& row.is_open <==> t.expanded[root as int].contains(path)
            &&& row.is_leaf_entry <==> root < 2 && depth == 1 && path.len() > 0
            &&& t.revealed(path).row_of(
                node,
                root,
                depth,
                Some(current),
                active,
            ).is_reveal_target <==> root == 2
            &&& !t.revealed(path).drawn(true, false).row_of(
                node,
                root,
                depth,
                Some(current),
                active,
            ).is_reveal_target
        }),
{
}

/// What was scrolled to is done with; what was not drawn is tried again.
pub proof fn targets_wait_to_be_drawn(t: TreeView, a: bool, b: bool)
    ensures
        t.drawn(a, b).revealing == if a {
            None
        } else {
            t.revealing
        },
        t.drawn(false, false) == t,
        t.drawn(true, b).revealing is None,
        t.drawn(a, true).recent_scroll is None,
        t.drawn(a, false).recent_scroll == t.recent_scroll,
        t.drawn(a, b).expanded == t.expanded && t.drawn(a, b).to_top == t.to_top,
{
}

/// The nodes of the drives are those of the drives that are there, each with its name and
/// its root folder, and nothing loaded.
pub proof fn drives_are_shown(nodes: Seq<TreeNode>, present: Seq<bool>, i: int)
    requires
        are_drives(nodes, present),
        0 <= i < drives_present(present).len(),
    ensures
        nodes.len() == drives_present(present).len(),
        nodes[i].display_name@ == drive_name(drives_present(present)[i]),
        nodes[i].path@ == drive_path(drives_present(present)[i]),
        nodes[i].is_dir && !nodes[i].loading,
        nodes[i].children is Some && nodes[i].children->0@.len() == 0,
{
    let d = drives_present(present);
    assert(nodes[i].is_fresh(drive_path(d[i]), drive_name(d[i])));
}

/// The nodes of subfolders are those of the subfolders in their order, each with its name
/// and path, and nothing loaded.
pub proof fn subfolders_are_shown(nodes: Seq<TreeNode>, subdirs: Seq<SubDirView>, i: int)
    requires
        are_subdirs(nodes, subdirs),
        0 <= i < subdirs.len(),
    ensures
        nodes.len() == subdirs.len(),
        nodes[i].display_name@ == subdirs[i].name,
        nodes[i].path@ == subdirs[i].path,
        nodes[i].is_dir && !nodes[i].loading,
        nodes[i].children is Some && nodes[i].children->0@.len() == 0,
{
    assert(nodes[i].is_fresh(subdirs[i].path, subdirs[i].name));
}

} // verus!
