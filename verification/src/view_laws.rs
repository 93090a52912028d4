//! What the mathematical counterparts of the values say of them: each says what its name
//! says.

use vstd::prelude::*;
use crate::actions::{ActionView, UiAction};
use crate::coordinator::{Command, CommandView, Progress, ProgressView};
use crate::effect::{Effect, EffectView};
use crate::file_tree::FileTree;
use crate::fs::{DirEntry, Listing, ListingView};
use crate::keys::{InputView, RouterInput, UiEvent, UiEventView};
use crate::model::ImageItem;
use crate::path::{Part, PartView};
use crate::precache::CacheEntry;
use crate::settings::SettingsData;
use crate::texture_cache::{MainImage, OutcomeView, ThumbEntry, ThumbOutcome};
use crate::window::{LaunchTarget, LaunchView, MainWindow, Sibling};

verus! {

/// Effects without a path are what they are called.
pub proof fn plain_effects(e: Effect)
    ensures
        e is ClearCaches <==> e@ is ClearCaches,
        e is Redraw <==> e@ is Redraw,
        e is FitToScreen <==> e@ is FitToScreen,
        e is ActualSize <==> e@ is ActualSize,
        e is ZoomIn <==> e@ is ZoomIn,
        e is ZoomOut <==> e@ is ZoomOut,
        e is MarkViewportTransition <==> e@ is MarkViewportTransition,
        e is ResetTravel <==> e@ is ResetTravel,
        e is Relayout <==> e@ is Relayout,
        e is SaveGeometry <==> e@ is SaveGeometry,
        e is Exit <==> e@ is Exit,
        e is Minimize <==> e@ is Minimize,
        e is ToggleMaximize <==> e@ is ToggleMaximize,
        e is SaveSettings <==> e@ is SaveSettings,
{
}

/// Effects with something in them are what they are called, with that in them.
pub proof fn effects_with_contents(e: Effect)
    ensures
        e matches Effect::RequestCurrent(d) ==> e@ == EffectView::RequestCurrent(d),
        e matches Effect::PickFolder(p) ==> e@ == EffectView::PickFolder(p@),
        e matches Effect::OpenFolder(p) ==> e@ == EffectView::OpenFolder(p@),
        e matches Effect::OpenFile { folder, file } ==> e@ == (EffectView::OpenFile {
            folder: folder@,
            file: file@,
        }),
        e matches Effect::CycleFolder(d) ==> e@ == EffectView::CycleFolder(d),
        e matches Effect::ThickFrame(on) ==> e@ == EffectView::ThickFrame(on),
        e matches Effect::SetFullscreen(on) ==> e@ == EffectView::SetFullscreen(on),
        e matches Effect::SetWallpaper(p) ==> e@ == EffectView::SetWallpaper(p@),
        e matches Effect::RevealInExplorer(p) ==> e@ == EffectView::RevealInExplorer(p@),
{
}

/// Of a list of effects each is seen, in its place.
pub proof fn effects_in_order(s: Seq<Effect>, i: int)
    requires
        0 <= i < s.len(),
    ensures
        crate::effect::effects(s).len() == s.len(),
        crate::effect::effects(s)[i] == s[i]@,
{
}

/// Actions without a path are what they are called.
pub proof fn plain_actions(a: UiAction)
    ensures
        a is OpenFolder <==> a@ is OpenFolder,
        a is Prev <==> a@ is Prev,
        a is Next <==> a@ is Next,
        a is Fit <==> a@ is Fit,
        a is OneToOne <==> a@ is OneToOne,
        a is ToggleFullscreen <==> a@ is ToggleFullscreen,
        a is ToggleTree <==> a@ is ToggleTree,
        a is ToggleThumbs <==> a@ is ToggleThumbs,
        a is ToggleShortcutHelp <==> a@ is ToggleShortcutHelp,
        a is ToggleFavorite <==> a@ is ToggleFavorite,
        a is ExitApp <==> a@ is ExitApp,
        a is MinimizeWindow <==> a@ is MinimizeWindow,
        a is ToggleMaximize <==> a@ is ToggleMaximize,
        a is ToggleTheme <==> a@ is ToggleTheme,
        a is SetWallpaper <==> a@ is SetWallpaper,
        a is OpenInExplorer <==> a@ is OpenInExplorer,
{
}

/// Actions with something in them are what they are called, with that in them.
pub proof fn actions_with_contents(a: UiAction)
    ensures
        a matches UiAction::ThumbClicked(i) ==> a@ == ActionView::ThumbClicked(i),
        a matches UiAction::FolderChosen(p, r) ==> a@ == ActionView::FolderChosen(p@, r),
        a matches UiAction::AddFavorite(p) ==> a@ == ActionView::AddFavorite(p@),
        a matches UiAction::RemoveFavorite(p) ==> a@ == ActionView::RemoveFavorite(p@),
        a matches UiAction::RemoveRecent(p) ==> a@ == ActionView::RemoveRecent(p@),
        a matches UiAction::RevealInExplorer(p) ==> a@ == ActionView::RevealInExplorer(p@),
        a matches UiAction::BrowseFolder(p) ==> a@ == ActionView::BrowseFolder(p@),
        a matches UiAction::RevealInTree(p) ==> a@ == ActionView::RevealInTree(p@),
{
}

/// The window's state is seen as it stands in its fields.
pub proof fn window_is_seen(w: MainWindow)
    ensures
        w@.nav == w.nav@,
        w@.settings == w.settings@,
        w@.viewport == (w.viewport_w, w.viewport_h),
        w@.show_tree == w.show_tree,
        w@.show_thumbs == w.show_thumbs,
        w@.last_thumb == w.last_thumb_idx,
        w@.fullscreen == w.is_fullscreen,
        w@.help == w.show_shortcut_help,
        w@.help_hole == w.help_child_hidden,
        w@.chrome == w.chrome_visible,
        w@.chrome_at == w.chrome_hide_at,
        w@.visuals == w.applied_visuals,
        w@.single_image == w.single_image_size,
        w@.drag == w.drag_panel,
        w@.hover == w.panel_edge_hover,
        w@.panning == w.pan_active,
        w@.theme == w.theme,
        w@.active_root == w.active_root,
        w@.last_click == w.last_click,
        w@.arrows == w.arrows@,
        w@.queue.len() == w.actions@.len(),
        forall|i: int| 0 <= i < w.actions@.len() ==> w@.queue[i] == (#[trigger] w.actions@[i])@,
        w.initial_folder matches Some(p) ==> w@.initial_folder == Some(p@),
        w.initial_folder is None <==> w@.initial_folder is None,
{
}

/// What the program was started with, and the folders beside the current one, are seen as
/// they are.
pub proof fn targets_are_seen(t: LaunchTarget, s: Sibling)
    ensures
        t is NoTarget <==> t@ is NoTarget,
        t matches LaunchTarget::Folder(p) ==> t@ == LaunchView::Folder(p@),
        t matches LaunchTarget::SingleImage { path, width, height } ==> t@
            == (LaunchView::SingleImage { path: path@, width, height }),
        s@.path == s.path@,
        s@.listing == s.listing@,
{
}

/// The values that are saved are seen each under its name.
pub proof fn saved_values_are_seen(d: SettingsData)
    ensures
        d.last_folder matches Some(f) ==> d@.last_folder == Some(f@),
        d.last_folder is None <==> d@.last_folder is None,
        d@.window_position == d.window_position,
        d@.window_size == d.window_size,
        d@.max_decode_dimension == d.max_decode_dimension,
        d@.fullscreen == d.fullscreen,
        d@.recent == crate::sort::views(d.recent_folders@),
        d@.favorites == crate::sort::views(d.favorite_folders@),
        d.theme matches Some(t) ==> d@.theme == Some(t@),
        d.theme is None <==> d@.theme is None,
{
}

/// Entries, listings and items are seen as they are.
pub proof fn files_are_seen(e: DirEntry, l: Listing, it: ImageItem)
    ensures
        e@.path == e.path@,
        e@.is_file == e.is_file,
        e@.is_dir == e.is_dir,
        e@.hidden == e.hidden,
        e@.meta == e.meta,
        l is NotADirectory <==> l@ is NotADirectory,
        l is Unreadable <==> l@ is Unreadable,
        l matches Listing::Entries(v) ==> l@ == ListingView::Entries(crate::sort::views(v@)),
        it@.path == it.path@,
        it@.width == it.width,
        it@.height == it.height,
        it@.file_size == it.file_size,
        it@.modified == it.modified,
        it@.is_favorite == it.is_favorite,
        it.thumbnail matches Some(b) ==> it@.thumbnail == Some(b@),
        it.thumbnail is None <==> it@.thumbnail is None,
{
}

/// Components of a path are seen as they are.
pub proof fn components_are_seen(p: Part)
    ensures
        p matches Part::Prefix(s) ==> p@ == PartView::Prefix(s@),
        p matches Part::Normal(s) ==> p@ == PartView::Normal(s@),
        p is RootDir <==> p@ is RootDir,
        p is CurDir <==> p@ is CurDir,
        p is ParentDir <==> p@ is ParentDir,
{
}

/// Inputs and events are seen as they are.
pub proof fn inputs_are_seen<P>(i: RouterInput<P>, e: UiEvent<P>)
    ensures
        i matches RouterInput::CursorMoved(p) ==> i@ == InputView::CursorMoved(p),
        i is CursorLeft <==> i@ is CursorLeft,
        i matches RouterInput::MouseInput { button, pressed, pos } ==> i@
            == (InputView::MouseInput { button, pressed, pos }),
        i matches RouterInput::MouseWheel(p) ==> i@ == InputView::MouseWheel(p),
        i matches RouterInput::ModifiersChanged(m) ==> i@ == InputView::<P>::ModifiersChanged(m),
        i matches RouterInput::Focused(f) ==> i@ == InputView::<P>::Focused(f),
        i matches RouterInput::Keyboard { text, key, pressed, repeat } ==> i@
            == (InputView::<P>::Keyboard {
            text: crate::keys::text_view(text),
            key,
            pressed,
            repeat,
        }),
        e matches UiEvent::PointerMoved(p) ==> e@ == UiEventView::PointerMoved(p),
        e is PointerGone <==> e@ is PointerGone,
        e matches UiEvent::PointerButton { pos, button, pressed, modifiers } ==> e@
            == (UiEventView::PointerButton { pos, button, pressed, modifiers }),
        e matches UiEvent::Wheel { delta, modifiers } ==> e@ == (UiEventView::Wheel {
            delta,
            modifiers,
        }),
        e matches UiEvent::Text(t) ==> e@ == UiEventView::<P>::Text(t@),
        e matches UiEvent::Key { key, pressed, repeat, modifiers } ==> e@
            == (UiEventView::<P>::Key { key, pressed, repeat, modifiers }),
{
}

/// What the coordinator asks for, and what it is told of a decode, are seen as they are.
pub proof fn decodes_are_seen<T>(c: Command<T>, p: Progress<T>)
    ensures
        c matches Command::Show(img, dir) ==> c@ == CommandView::Show(img, dir),
        c matches Command::Decode(r) ==> (c@ matches CommandView::Decode(v) && v.path == r.path@
            && v.tier == r.tier && v.width == r.width && v.height == r.height && v.direction
            == r.direction && v.id == r.id),
        p is Running <==> p@ is Running,
        p is Closed <==> p@ is Closed,
        p matches Progress::Landed(r) ==> (p@ matches ProgressView::Landed(v) && v.id == r.id
            && v.path == r.path@.parts() && v.success == r.result.is_success && v.direction
            == r.direction && v.image == r.gpu_image),
{
}

/// Images on the GPU are seen under their file and its time.
pub proof fn textures_are_seen<X>(
    c: CacheEntry<X>,
    m: MainImage<X>,
    t: ThumbEntry<X>,
    o: ThumbOutcome<X>,
)
    ensures
        c@.path == c.path@.parts() && c@.modified == c.modified && c@.image == c.image && c@.tier
            == c.tier,
        m@.key.path == m.path@.parts() && m@.key.mtime == m.mtime && m@.texture == m.texture,
        m@.source_w == m.source_w && m@.source_h == m.source_h,
        t@.key.path == t.path@.parts() && t@.key.mtime == t.mtime && t@.texture == t.texture,
        o matches ThumbOutcome::Ready { path, mtime, texture } ==> (
        o@ matches OutcomeView::Ready { key, texture: x } && key.path == path@.parts()
            && key.mtime == mtime && x == texture),
        o matches ThumbOutcome::Failed { path, mtime } ==> (o@ matches OutcomeView::Failed { key }
            && key.path == path@.parts() && key.mtime == mtime),
{
}

/// What the tree remembers is seen as it stands in its fields.
pub proof fn tree_is_seen(t: FileTree, i: int, k: int)
    requires
        0 <= i < t.expanded@.len(),
        0 <= k < t.expanded@[i]@.len(),
    ensures
        t@.expanded.len() == t.expanded@.len(),
        t@.expanded[i].contains(t.expanded@[i]@[k]@.parts()),
        t.reveal_target matches Some(p) ==> t@.revealing == Some(p@.parts()),
        t.reveal_target is None <==> t@.revealing is None,
        t.recent_scroll_target matches Some(p) ==> t@.recent_scroll == Some(p@.parts()),
        t.recent_scroll_target is None <==> t@.recent_scroll is None,
        t@.to_top == t.scroll_to_top,
{
    let list = t.expanded@[i]@;
    assert(crate::file_tree::ids(list)[k] == list[k]@.parts());
    assert(crate::file_tree::ids(list).contains(list[k]@.parts()));
}

} // verus!
