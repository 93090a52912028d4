//! What the window asks the program to do.

use vstd::prelude::*;
use crate::path::{FilePath, PathView};
use crate::viewer::SlideDir;

verus! {

/// Something for the program to do.
#[derive(Debug)]
pub enum Effect {
    /// Ask the coordinator for the current image.
    RequestCurrent(SlideDir),
    /// Empty the caches of decoded images and of textures.
    ClearCaches,
    /// Draw a new frame.
    Redraw,
    /// Let the user choose a folder, starting from this one.
    PickFolder(FilePath),
    /// Look at a folder, and go to it.
    OpenFolder(FilePath),
    /// Look at a folder, and go to a file in it.
    OpenFile { folder: FilePath, file: FilePath },
    /// Look at the folders beside the current one, and go to another one of the list.
    CycleFolder(i32),
    FitToScreen,
    ActualSize,
    ZoomIn,
    ZoomOut,
    /// Remember where the image is, for an animation to its new place.
    MarkViewportTransition,
    /// Give the window the frame that it is resized by, or take it away.
    ThickFrame(bool),
    SetFullscreen(bool),
    /// Start to measure the way of the pointer anew.
    ResetTravel,
    /// Lay the viewer out anew.
    Relayout,
    SaveGeometry,
    Exit,
    Minimize,
    ToggleMaximize,
    SetWallpaper(FilePath),
    RevealInExplorer(FilePath),
    SaveSettings,
}

/// The mathematical counterpart of [`Effect`].
pub enum EffectView {
    RequestCurrent(SlideDir),
    ClearCaches,
    Redraw,
    PickFolder(PathView),
    OpenFolder(PathView),
    OpenFile { folder: PathView, file: PathView },
    CycleFolder(i32),
    FitToScreen,
    ActualSize,
    ZoomIn,
    ZoomOut,
    MarkViewportTransition,
    ThickFrame(bool),
    SetFullscreen(bool),
    ResetTravel,
    Relayout,
    SaveGeometry,
    Exit,
    Minimize,
    ToggleMaximize,
    SetWallpaper(PathView),
    RevealInExplorer(PathView),
    SaveSettings,
}

impl View for Effect {
    type V = EffectView;

    open spec fn view(&self) -> EffectView {
        match self {
            Effect::RequestCurrent(d) => EffectView::RequestCurrent(*d),
            Effect::ClearCaches => EffectView::ClearCaches,
            Effect::Redraw => EffectView::Redraw,
            Effect::PickFolder(p) => EffectView::PickFolder(p@),
            Effect::OpenFolder(p) => EffectView::OpenFolder(p@),
            Effect::OpenFile { folder, file } => EffectView::OpenFile {
                folder: folder@,
                file: file@,
            },
            Effect::CycleFolder(d) => EffectView::CycleFolder(*d),
            Effect::FitToScreen => EffectView::FitToScreen,
            Effect::ActualSize => EffectView::ActualSize,
            Effect::ZoomIn => EffectView::ZoomIn,
            Effect::ZoomOut => EffectView::ZoomOut,
            Effect::MarkViewportTransition => EffectView::MarkViewportTransition,
            Effect::ThickFrame(on) => EffectView::ThickFrame(*on),
            Effect::SetFullscreen(on) => EffectView::SetFullscreen(*on),
            Effect::ResetTravel => EffectView::ResetTravel,
            Effect::Relayout => EffectView::Relayout,
            Effect::SaveGeometry => EffectView::SaveGeometry,
            Effect::Exit => EffectView::Exit,
            Effect::Minimize => EffectView::Minimize,
            Effect::ToggleMaximize => EffectView::ToggleMaximize,
            Effect::SetWallpaper(p) => EffectView::SetWallpaper(p@),
            Effect::RevealInExplorer(p) => EffectView::RevealInExplorer(p@),
            Effect::SaveSettings => EffectView::SaveSettings,
        }
    }
}

/// The views of effects.
pub open spec fn effects(s: Seq<Effect>) -> Seq<EffectView> {
    crate::sort::views(s)
}

/// Nothing to do.
pub fn nothing() -> (r: Vec<Effect>)
    ensures
        effects(r@) == Seq::<EffectView>::empty(),
{
    let r: Vec<Effect> = Vec::new();
    assert(effects(r@) =~= Seq::<EffectView>::empty());
    r
}

/// One thing to do.
pub fn one(a: Effect) -> (r: Vec<Effect>)
    ensures
        effects(r@) == seq![a@],
{
    let ghost av = a@;
    let mut r: Vec<Effect> = Vec::new();
    r.push(a);
    assert(effects(r@) =~= seq![av]);
    r
}

/// Two things to do, in this order.
pub fn two(a: Effect, b: Effect) -> (r: Vec<Effect>)
    ensures
        effects(r@) == seq![a@, b@],
{
    let ghost av = a@;
    let ghost bv = b@;
    let mut r: Vec<Effect> = Vec::new();
    r.push(a);
    r.push(b);
    assert(effects(r@) =~= seq![av, bv]);
    r
}

/// Something more to do, after the rest.
pub fn and(todo: Vec<Effect>, last: Effect) -> (r: Vec<Effect>)
    ensures
        effects(r@) == effects(todo@).push(last@),
{
    let ghost before = effects(todo@);
    let ghost lv = last@;
    let mut r = todo;
    r.push(last);
    assert(effects(r@) =~= before.push(lv));
    r
}

} // verus!
