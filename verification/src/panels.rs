//! The state of the smaller panels, and the texts they show.

use vstd::prelude::*;
use crate::path::{FilePath, PathView};
use crate::text::decimal_text;

verus! {

/// The title bar.
#[derive(Debug)]
pub struct TitleBar {
    pub title: String,
    pub show_settings: bool,
}

impl TitleBar {
    /// A title bar without the settings.
    pub fn new(title: String) -> (r: Self)
        ensures
            r.title@ == title@,
            !r.show_settings,
    {
        TitleBar { title, show_settings: false }
    }
}

/// What the user can set.
#[derive(Debug, Clone, Copy, PartialEq, Eq, Structural)]
pub struct Settings {
    pub max_decode_dimension: u32,
    pub thumbnail_size: u32,
    pub enable_animations: bool,
    pub enable_gpu_decode: bool,
    pub auto_fit_on_load: bool,
    pub show_floating_bar: bool,
}

impl Settings {
    /// What is set before the user sets anything.
    pub open spec fn usual() -> Settings {
        Settings {
            max_decode_dimension: 7680,
            thumbnail_size: 200,
            enable_animations: true,
            enable_gpu_decode: true,
            auto_fit_on_load: true,
            show_floating_bar: true,
        }
    }
}

impl Default for Settings {
    fn default() -> (r: Self)
        ensures
            r == Settings::usual(),
    {
        Settings {
            max_decode_dimension: 7680,
            thumbnail_size: 200,
            enable_animations: true,
            enable_gpu_decode: true,
            auto_fit_on_load: true,
            show_floating_bar: true,
        }
    }
}

/// The settings panel.
#[derive(Debug)]
pub struct SettingsPanel {
    pub settings: Settings,
    pub visible: bool,
}

/// The mark for a setting that is on or off.
pub open spec fn mark(on: bool) -> Seq<char> {
    if on {
        "✓"@
    } else {
        "✗"@
    }
}

fn mark_text(on: bool) -> (r: &'static str)
    ensures
        r@ == mark(on),
{
    if on {
        "✓"
    } else {
        "✗"
    }
}

impl SettingsPanel {
    /// A hidden panel with the usual settings.
    pub fn new() -> (r: Self)
        ensures
            r.settings == Settings::usual(),
            !r.visible,
    {
        SettingsPanel { settings: Settings::default(), visible: false }
    }

    /// The lines that the panel shows below its title; a hidden panel shows none.
    pub open spec fn lines(&self) -> Seq<Seq<char>> {
        if self.visible {
            seq![
                "Max decode dim: "@ + crate::text::decimal(
                    self.settings.max_decode_dimension as nat,
                ) + " px"@,
                "Thumbnail size: "@ + crate::text::decimal(self.settings.thumbnail_size as nat)
                    + " px"@,
                "GPU decode (WIC DXVA): "@ + mark(self.settings.enable_gpu_decode),
                "Animations: "@ + mark(self.settings.enable_animations),
            ]
        } else {
            Seq::empty()
        }
    }

    /// Writes the lines that the panel shows.
    pub fn labels(&self) -> (r: Vec<String>)
        ensures
            r@.len() == self.lines().len(),
            forall|i: int| 0 <= i < r@.len() ==> (#[trigger] r@[i])@ == self.lines()[i],
    {
        let mut out: Vec<String> = Vec::new();
        if !self.visible {
            return out;
        }
        let mut a: String = "Max decode dim: ".to_owned();
        a.append(decimal_text(self.settings.max_decode_dimension as u64).as_str());
        a.append(" px");
        out.push(a);
        let mut b: String = "Thumbnail size: ".to_owned();
        b.append(decimal_text(self.settings.thumbnail_size as u64).as_str());
        b.append(" px");
        out.push(b);
        let mut c: String = "GPU decode (WIC DXVA): ".to_owned();
        c.append(mark_text(self.settings.enable_gpu_decode));
        out.push(c);
        let mut d: String = "Animations: ".to_owned();
        d.append(mark_text(self.settings.enable_animations));
        out.push(d);
        out
    }
}

/// A row of the simple tree panel.
#[derive(Debug)]
pub struct PanelNode {
    pub name: String,
    pub path: FilePath,
    pub is_dir: bool,
    pub expanded: bool,
    pub children: Vec<PanelNode>,
    pub depth: usize,
}

impl PanelNode {
    /// The node is a root of this name.
    pub open spec fn is_root(self, name: Seq<char>, expanded: bool) -> bool {
        &&& self.name@ == name
        &&& self.path@.parts().len() == 0
        &&& self.is_dir
        &&& self.expanded == expanded
        &&& self.children@.len() == 0
        &&& self.depth == 0
    }

    fn root(name: &str, expanded: bool) -> (r: Self)
        ensures
            r.is_root(name@, expanded),
    {
        PanelNode {
            name: name.to_owned(),
            path: FilePath::empty(),
            is_dir: true,
            expanded,
            children: Vec::new(),
            depth: 0,
        }
    }

    /// The arrow in front of a row: only folders with children have one.
    pub fn arrow(&self) -> (r: &'static str)
        ensures
            r@ == if self.is_dir && self.children@.len() > 0 {
                if self.expanded {
                    "▼"@
                } else {
                    "▶"@
                }
            } else {
                ""@
            },
    {
        if self.is_dir && self.children.len() > 0 {
            if self.expanded {
                "▼"
            } else {
                "▶"
            }
        } else {
            ""
        }
    }

    /// The icon of a row.
    pub fn icon(&self) -> (r: &'static str)
        ensures
            r@ == if self.is_dir {
                "📁"@
            } else {
                "🖼"@
            },
    {
        if self.is_dir {
            "📁"
        } else {
            "🖼"
        }
    }
}

/// The simple tree panel.
#[derive(Debug)]
pub struct TreePanel {
    pub roots: Vec<PanelNode>,
    pub selected_path: Option<FilePath>,
}

impl TreePanel {
    /// The panel with its three roots, the first one expanded.
    pub fn new() -> (r: Self)
        ensures
            r.roots@.len() == 3,
            r.roots@[0].is_root("收藏夹"@, true),
            r.roots@[1].is_root("最近访问"@, false),
            r.roots@[2].is_root("此电脑"@, false),
            r.selected_path is None,
    {
        let mut roots: Vec<PanelNode> = Vec::new();
        roots.push(PanelNode::root("收藏夹", true));
        roots.push(PanelNode::root("最近访问", false));
        roots.push(PanelNode::root("此电脑", false));
        TreePanel { roots, selected_path: None }
    }

    /// Takes a click on a root's row: one without children becomes the selection.
    pub fn clicked(&mut self, i: usize)
        requires
            i < old(self).roots@.len(),
        ensures
            final(self).roots == old(self).roots,
            if old(self).roots@[i as int].is_dir && old(self).roots@[i as int].children@.len() > 0 {
                final(self).selected_path == old(self).selected_path
            } else {
                &&& final(self).selected_path is Some
                &&& final(self).selected_path->0@ == old(self).roots@[i as int].path@
            },
    {
        if !(self.roots[i].is_dir && self.roots[i].children.len() > 0) {
            self.selected_path = Some(self.roots[i].path.clone());
        }
    }

    /// Whether a row is the selection.
    pub fn is_selected(&self, path: &FilePath) -> (r: bool)
        ensures
            r == (match self.selected_path {
                Some(p) => p@.same(path@),
                None => false,
            }),
    {
        match &self.selected_path {
            Some(p) => p.same(path),
            None => false,
        }
    }
}

/// The text for a number of images.
pub open spec fn count_label(n: nat) -> Seq<char> {
    if n == 1 {
        crate::text::decimal(n) + " image"@
    } else {
        crate::text::decimal(n) + " images"@
    }
}

/// Writes a number of images.
pub fn image_count_label(n: usize) -> (r: String)
    ensures
        r@ == count_label(n as nat),
{
    let mut out: String = decimal_text(n as u64);
    if n == 1 {
        out.append(" image");
    } else {
        out.append(" images");
    }
    out
}

/// The text for a position among images, counted from one; none is zero.
pub open spec fn position_text(index: nat, count: nat) -> Seq<char> {
    crate::text::decimal(
        if count == 0 {
            0
        } else {
            index + 1
        },
    ) + "/"@ + crate::text::decimal(count)
}

/// Writes a position among images.
pub fn position_label(index: usize, count: usize) -> (r: String)
    requires
        index < count || count == 0,
    ensures
        r@ == position_text(index as nat, count as nat),
{
    let shown: u64 = if count == 0 {
        0
    } else {
        index as u64 + 1
    };
    let mut out: String = decimal_text(shown);
    out.append("/");
    out.append(decimal_text(count as u64).as_str());
    out
}

/// The name shown for the current image.
pub open spec fn shown_name(current: Option<PathView>) -> Seq<char> {
    match current {
        Some(p) => match crate::path::name_of(p.parts()) {
            Some(n) => n,
            None => "—"@,
        },
        None => "—"@,
    }
}

/// An image is shown by its file's name, and where there is none a dash stands.
pub proof fn images_are_named(folder: PathView, name: Seq<char>)
    ensures
        shown_name(Some(folder.joined(name))) == name,
        shown_name(None) == "—"@,
        shown_name(Some(PathView::empty())) == "—"@,
{
    crate::path::joined_names(folder, name);
    assert(PathView::empty().parts().len() == 0);
}

/// The name shown for the current image; a dash without one.
pub fn bar_name(current: Option<&FilePath>) -> (r: String)
    ensures
        r@ == shown_name(
            match current {
                Some(p) => Some(p@),
                None => None,
            },
        ),
{
    match current {
        Some(p) => match p.file_name() {
            Some(n) => n.to_owned(),
            None => "—".to_owned(),
        },
        None => "—".to_owned(),
    }
}

/// The label of the button that changes the fullscreen mode.
pub fn fullscreen_label(fullscreen: bool) -> (r: &'static str)
    ensures
        r@ == if fullscreen {
            "Exit"@
        } else {
            "Fullscreen"@
        },
{
    if fullscreen {
        "Exit"
    } else {
        "Fullscreen"
    }
}

/// The average height of a thumbnail's card.
pub const CARD_HEIGHT: u32 = 200;

/// The first of the thumbnails to ask for, and the one behind the last.
pub open spec fn wanted_thumbs(first: usize, last: usize, count: usize) -> (int, int) {
    (
        if first < 5 {
            0
        } else {
            first - 5
        },
        if last + 10 < count {
            last + 10
        } else {
            count as int
        },
    )
}

/// The thumbnails to ask for: those in view, and some before and behind them.
/// `first` counts the cards above the view, `last` those down to its end.
pub fn thumb_window(first: usize, last: usize, count: usize) -> (r: (usize, usize))
    ensures
        (r.0 as int, r.1 as int) == wanted_thumbs(first, last, count),
        r.1 <= count,
{
    let from: usize = if first < 5 {
        0
    } else {
        first - 5
    };
    let to: usize = if last >= count || count - last <= 10 {
        count
    } else {
        last + 10
    };
    (from, to)
}

/// One image is an image, any other number are images. A position counts from one, and
/// without images it is zero.
pub proof fn labels_count(n: nat, index: nat)
    ensures
        count_label(1) == "1"@ + " image"@,
        n != 1 ==> count_label(n) == crate::text::decimal(n) + " images"@,
        n > 0 ==> position_text(index, n) == crate::text::decimal(index + 1) + "/"@
            + crate::text::decimal(n),
        position_text(index, 0) == "0"@ + "/"@ + "0"@,
        mark(true) == "✓"@,
        mark(false) == "✗"@,
{
    reveal_strlit("0");
    reveal_strlit("1");
    crate::text::decimal_stands_for_the_number(0);
    assert(crate::text::decimal(1) =~= "1"@);
    assert(crate::text::decimal(0) =~= "0"@);
}

/// The thumbnails to ask for hold all those in view, and five before and ten behind them
/// as far as there are any.
pub proof fn wanted_thumbs_hold_the_view(first: usize, last: usize, count: usize, i: int)
    ensures
        ({
            let w = wanted_thumbs(first, last, count);
            &&& 0 <= w.0 && w.1 <= count
            &&& w.0 <= i < w.1 <==> 0 <= i < count && first - 5 <= i < last + 10
        }),
{
}

/// A root of the simple panel is a folder of its name, at the top and without children.
pub proof fn roots_are_at_the_top(n: PanelNode, name: Seq<char>, expanded: bool)
    requires
        n.is_root(name, expanded),
    ensures
        n.name@ == name,
        n.is_dir,
        n.expanded == expanded,
        n.depth == 0,
        n.children@.len() == 0,
        n.path@.parts().len() == 0,
{
}

/// Before the user sets anything, everything that can be turned on is on, images are
/// decoded up to the loader's own bound, and thumbnails have the size they are cached in.
pub proof fn everything_is_on(s: Settings)
    requires
        s == Settings::usual(),
    ensures
        s.enable_animations && s.enable_gpu_decode && s.auto_fit_on_load && s.show_floating_bar,
        s.max_decode_dimension == crate::loader::DEFAULT_MAX_DIM,
        s.thumbnail_size == crate::texture_cache::THUMB_SIZE,
{
}

} // verus!
