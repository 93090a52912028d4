//! Keyboard shortcuts.

use vstd::prelude::*;

verus! {

/// What a shortcut does.
#[derive(Debug, Clone, Copy, PartialEq, Eq, Structural)]
pub enum Action {
    NextImage,
    PreviousImage,
    ZoomIn,
    ZoomOut,
    FitToScreen,
    ActualSize,
    Fullscreen,
    ToggleThumbPanel,
    ToggleTreePanel,
    ShowSettings,
    DeleteCurrent,
}

pub const VK_RIGHT: u32 = 0x27;

pub const VK_LEFT: u32 = 0x25;

pub const VK_F: u32 = 0x46;

pub const VK_F11: u32 = 0x7A;

pub const VK_T: u32 = 0x54;

pub const VK_E: u32 = 0x45;

pub const VK_OEM_COMMA: u32 = 0xBC;

pub const VK_DELETE: u32 = 0x2E;

pub const VK_OEM_PLUS: u32 = 0xBB;

pub const VK_OEM_MINUS: u32 = 0xBD;

pub const VK_CONTROL: u32 = 0x11;

/// The keys of all actions: the main key first, the control key last where it is needed.
pub struct ShortcutManager {
    pub actions: Vec<(Action, Vec<u32>)>,
}

impl View for ShortcutManager {
    type V = Seq<(Action, Seq<u32>)>;

    open spec fn view(&self) -> Seq<(Action, Seq<u32>)> {
        Seq::new(self.actions@.len(), |i: int| (self.actions@[i].0, self.actions@[i].1@))
    }
}

/// The keys include the control key.
pub open spec fn needs_ctrl(codes: Seq<u32>) -> bool {
    codes.len() > 1 && codes.last() == VK_CONTROL
}

/// A binding answers to a key.
pub open spec fn answers(vk_code: u32, ctrl: bool) -> spec_fn((Action, Seq<u32>)) -> bool {
    |b: (Action, Seq<u32>)| needs_ctrl(b.1) == ctrl && b.1[0] == vk_code
}

/// The action of the first binding that answers to a key.
pub open spec fn dispatched(bindings: Seq<(Action, Seq<u32>)>, vk_code: u32, ctrl: bool) -> Option<
    Action,
> {
    let i = crate::seqs::first_where(bindings, answers(vk_code, ctrl));
    if i < bindings.len() {
        Some(bindings[i].0)
    } else {
        None
    }
}

/// The usual bindings.
pub open spec fn default_bindings() -> Seq<(Action, Seq<u32>)> {
    seq![
        (Action::NextImage, seq![VK_RIGHT]),
        (Action::PreviousImage, seq![VK_LEFT]),
        (Action::ZoomIn, seq![VK_OEM_PLUS]),
        (Action::ZoomOut, seq![VK_OEM_MINUS]),
        (Action::FitToScreen, seq![VK_F]),
        (Action::ActualSize, seq![VK_F, VK_CONTROL]),
        (Action::Fullscreen, seq![VK_F11]),
        (Action::ToggleThumbPanel, seq![VK_T, VK_CONTROL]),
        (Action::ToggleTreePanel, seq![VK_E, VK_CONTROL]),
        (Action::ShowSettings, seq![VK_OEM_COMMA, VK_CONTROL]),
        (Action::DeleteCurrent, seq![VK_DELETE]),
    ]
}

/// None of the usual bindings hides another: each one's keys lead to its own action.
pub proof fn default_bindings_reachable(i: int)
    requires
        0 <= i < default_bindings().len(),
    ensures
        dispatched(
            default_bindings(),
            default_bindings()[i].1[0],
            needs_ctrl(default_bindings()[i].1),
        ) == Some(default_bindings()[i].0),
{
    let b = default_bindings();
    let f = answers(b[i].1[0], needs_ctrl(b[i].1));
    assert(f(b[i]));
    assert forall|j: int| 0 <= j < i implies !f(#[trigger] b[j]) by {
        assert(b.len() == 11);
        if needs_ctrl(b[j].1) == needs_ctrl(b[i].1) {
            assert(b[j].1[0] != b[i].1[0]);
        }
    }
    crate::seqs::first_where_unique(b, f, i);
}

impl ShortcutManager {
    /// Every binding has a key.
    pub open spec fn wf(&self) -> bool {
        forall|i: int| 0 <= i < self@.len() ==> (#[trigger] self@[i]).1.len() > 0
    }

    /// The usual bindings.
    pub fn new() -> (r: Self)
        ensures
            r.wf(),
            r@ == default_bindings(),
    {
        let mut actions: Vec<(Action, Vec<u32>)> = Vec::new();
        actions.push((Action::NextImage, vec![VK_RIGHT]));
        actions.push((Action::PreviousImage, vec![VK_LEFT]));
        actions.push((Action::ZoomIn, vec![VK_OEM_PLUS]));
        actions.push((Action::ZoomOut, vec![VK_OEM_MINUS]));
        actions.push((Action::FitToScreen, vec![VK_F]));
        actions.push((Action::ActualSize, vec![VK_F, VK_CONTROL]));
        actions.push((Action::Fullscreen, vec![VK_F11]));
        actions.push((Action::ToggleThumbPanel, vec![VK_T, VK_CONTROL]));
        actions.push((Action::ToggleTreePanel, vec![VK_E, VK_CONTROL]));
        actions.push((Action::ShowSettings, vec![VK_OEM_COMMA, VK_CONTROL]));
        actions.push((Action::DeleteCurrent, vec![VK_DELETE]));
        let r = ShortcutManager { actions };
        proof {
            let want = default_bindings();
            assert(r@.len() == want.len());
            assert forall|i: int| 0 <= i < want.len() implies r@[i] == want[i] by {
                assert(r@[i].0 == want[i].0);
                assert(r@[i].1 =~= want[i].1);
            }
            assert(r@ =~= want);
        }
        r
    }

    /// The action for a key.
    pub fn dispatch(&self, vk_code: u32, ctrl: bool) -> (r: Option<Action>)
        requires
            self.wf(),
        ensures
            r == dispatched(self@, vk_code, ctrl),
    {
        let ghost f = answers(vk_code, ctrl);
        let mut i: usize = 0;
        while i < self.actions.len()
            invariant
                self.wf(),
                f == answers(vk_code, ctrl),
                i <= self.actions@.len(),
                forall|j: int| 0 <= j < i ==> !f(#[trigger] self@[j]),
            decreases self.actions@.len() - i,
        {
            assert(self@[i as int] == (self.actions@[i as int].0, self.actions@[i as int].1@));
            let codes = &self.actions[i].1;
            let n: usize = codes.len();
            let with_ctrl: bool = n > 1 && codes[n - 1] == VK_CONTROL;
            if with_ctrl == ctrl && codes[0] == vk_code {
                proof {
                    crate::seqs::first_where_unique(self@, f, i as int);
                }
                return Some(self.actions[i].0);
            }
            i += 1;
        }
        proof {
            crate::seqs::first_where_unique(self@, f, i as int);
        }
        None
    }
}

/// The usual bindings: each action with its key, with or without control, and no other
/// key leads to it.
pub proof fn usual_keys(vk: u32, ctrl: bool)
    ensures
        ({
            let a = dispatched(default_bindings(), vk, ctrl);
            &&& a == Some(Action::NextImage) <==> vk == 0x27 && !ctrl
            &&& a == Some(Action::PreviousImage) <==> vk == 0x25 && !ctrl
            &&& a == Some(Action::ZoomIn) <==> vk == 0xBB && !ctrl
            &&& a == Some(Action::ZoomOut) <==> vk == 0xBD && !ctrl
            &&& a == Some(Action::FitToScreen) <==> vk == 0x46 && !ctrl
            &&& a == Some(Action::ActualSize) <==> vk == 0x46 && ctrl
            &&& a == Some(Action::Fullscreen) <==> vk == 0x7A && !ctrl
            &&& a == Some(Action::ToggleThumbPanel) <==> vk == 0x54 && ctrl
            &&& a == Some(Action::ToggleTreePanel) <==> vk == 0x45 && ctrl
            &&& a == Some(Action::ShowSettings) <==> vk == 0xBC && ctrl
            &&& a == Some(Action::DeleteCurrent) <==> vk == 0x2E && !ctrl
        }),
{
    let b = default_bindings();
    let f = answers(vk, ctrl);
    crate::seqs::first_where_is(b, f);
    assert(b.len() == 11);
    let i = crate::seqs::first_where(b, f);
    assert(b[0].1.len() == 1 && b[5].1.last() == VK_CONTROL && b[7].1.last() == VK_CONTROL);
    assert(b[8].1.last() == VK_CONTROL && b[9].1.last() == VK_CONTROL);
    assert(f(b[0]) == (vk == 0x27 && !ctrl));
    assert(f(b[1]) == (vk == 0x25 && !ctrl));
    assert(f(b[2]) == (vk == 0xBB && !ctrl));
    assert(f(b[3]) == (vk == 0xBD && !ctrl));
    assert(f(b[4]) == (vk == 0x46 && !ctrl));
    assert(f(b[5]) == (vk == 0x46 && ctrl));
    assert(f(b[6]) == (vk == 0x7A && !ctrl));
    assert(f(b[7]) == (vk == 0x54 && ctrl));
    assert(f(b[8]) == (vk == 0x45 && ctrl));
    assert(f(b[9]) == (vk == 0xBC && ctrl));
    assert(f(b[10]) == (vk == 0x2E && !ctrl));
}

/// Of bindings to the same keys the first one counts; control has to be held exactly
/// where a binding ends in it.
pub proof fn first_binding_counts(bindings: Seq<(Action, Seq<u32>)>, i: int, vk: u32, ctrl: bool)
    requires
        0 <= i < bindings.len(),
        bindings[i].1.len() > 0,
        bindings[i].1[0] == vk,
        ctrl <==> bindings[i].1.len() > 1 && bindings[i].1.last() == 0x11,
        forall|j: int| 0 <= j < i ==> (#[trigger] bindings[j]).1[0] != vk,
    ensures
        dispatched(bindings, vk, ctrl) == Some(bindings[i].0),
        dispatched(bindings, vk, !ctrl) != Some(bindings[i].0) || exists|j: int|
            i < j < bindings.len() && (#[trigger] bindings[j]).0 == bindings[i].0,
{
    let f = answers(vk, ctrl);
    assert(f(bindings[i]));
    crate::seqs::first_where_unique(bindings, f, i);
    let g = answers(vk, !ctrl);
    crate::seqs::first_where_is(bindings, g);
    let j = crate::seqs::first_where(bindings, g);
    if j < bindings.len() {
        assert(g(bindings[j]));
    }
}

} // verus!
