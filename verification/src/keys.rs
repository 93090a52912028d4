//! Keys: what they ask for, how a held arrow key walks through the images, and what
//! is passed on to the user interface.

use vstd::prelude::*;

verus! {

/// The keys that mean something to the program.
#[derive(Debug, Clone, Copy, PartialEq, Eq, Structural)]
pub enum Key {
    ArrowLeft,
    ArrowRight,
    ArrowUp,
    ArrowDown,
    PageUp,
    PageDown,
    Home,
    End,
    Enter,
    Escape,
    Tab,
    Backspace,
    Delete,
    Space,
    KeyF,
    KeyW,
    KeyE,
    KeyD,
    Digit0,
    Equal,
    Minus,
    NumpadAdd,
    NumpadSubtract,
    Slash,
    Other,
}

/// A step to the previous or the next image.
#[derive(Debug, Clone, Copy, PartialEq, Eq, Structural)]
pub enum ArrowStep {
    Previous,
    Next,
}

/// What a key press asks for.
#[derive(Debug, Clone, Copy, PartialEq, Eq, Structural)]
pub enum KeyCommand {
    /// Go to another folder of the list, one back or one forward.
    CycleFolder(i32),
    /// Go to another image.
    Arrow(ArrowStep),
    /// Go a page of thumbnails back or forward.
    Page(i32),
    First,
    Last,
    ToggleFullscreen,
    Fit,
    ZoomIn,
    ZoomOut,
    /// Save the window's size and end.
    Quit,
    SetWallpaper,
    OpenInExplorer,
    ToggleFavorite,
    ToggleShortcutHelp,
}

/// The step of an arrow key: left and up go back, right and down go forward.
pub open spec fn step_of(key: Key) -> Option<ArrowStep> {
    match key {
        Key::ArrowLeft | Key::ArrowUp => Some(ArrowStep::Previous),
        Key::ArrowRight | Key::ArrowDown => Some(ArrowStep::Next),
        _ => None,
    }
}

/// What a key press asks for, with or without the control key.
pub open spec fn command_of(key: Key, ctrl: bool, fullscreen: bool) -> Option<KeyCommand> {
    match key {
        Key::ArrowLeft | Key::ArrowUp => if ctrl {
            Some(KeyCommand::CycleFolder((-1) as i32))
        } else {
            Some(KeyCommand::Arrow(ArrowStep::Previous))
        },
        Key::ArrowRight | Key::ArrowDown => if ctrl {
            Some(KeyCommand::CycleFolder(1))
        } else {
            Some(KeyCommand::Arrow(ArrowStep::Next))
        },
        Key::PageUp => Some(KeyCommand::Page((-1) as i32)),
        Key::PageDown => Some(KeyCommand::Page(1)),
        Key::Home => Some(KeyCommand::First),
        Key::End => Some(KeyCommand::Last),
        Key::KeyF => if ctrl {
            Some(KeyCommand::ToggleFullscreen)
        } else {
            Some(KeyCommand::Fit)
        },
        Key::Escape => if fullscreen {
            Some(KeyCommand::ToggleFullscreen)
        } else {
            Some(KeyCommand::Quit)
        },
        Key::Digit0 => if ctrl {
            Some(KeyCommand::Fit)
        } else {
            None
        },
        Key::Equal | Key::NumpadAdd => if ctrl {
            Some(KeyCommand::ZoomIn)
        } else {
            None
        },
        Key::Minus | Key::NumpadSubtract => if ctrl {
            Some(KeyCommand::ZoomOut)
        } else {
            None
        },
        Key::KeyW => if ctrl {
            Some(KeyCommand::SetWallpaper)
        } else {
            None
        },
        Key::KeyE => if ctrl {
            Some(KeyCommand::OpenInExplorer)
        } else {
            None
        },
        Key::KeyD => if ctrl {
            Some(KeyCommand::ToggleFavorite)
        } else {
            None
        },
        Key::Slash => if ctrl {
            Some(KeyCommand::ToggleShortcutHelp)
        } else {
            None
        },
        _ => None,
    }
}

/// Decides what a key press asks for; keys that ask for nothing go on to the user
/// interface.
pub fn key_command(key: Key, ctrl: bool, fullscreen: bool) -> (r: Option<KeyCommand>)
    ensures
        r == command_of(key, ctrl, fullscreen),
{
    if ctrl {
        match key {
            Key::ArrowLeft | Key::ArrowUp => {
                return Some(KeyCommand::CycleFolder(-1));
            },
            Key::ArrowRight | Key::ArrowDown => {
                return Some(KeyCommand::CycleFolder(1));
            },
            Key::KeyF => {
                return Some(KeyCommand::ToggleFullscreen);
            },
            Key::Digit0 => {
                return Some(KeyCommand::Fit);
            },
            Key::Equal | Key::NumpadAdd => {
                return Some(KeyCommand::ZoomIn);
            },
            Key::Minus | Key::NumpadSubtract => {
                return Some(KeyCommand::ZoomOut);
            },
            Key::KeyW => {
                return Some(KeyCommand::SetWallpaper);
            },
            Key::KeyE => {
                return Some(KeyCommand::OpenInExplorer);
            },
            Key::KeyD => {
                return Some(KeyCommand::ToggleFavorite);
            },
            Key::Slash => {
                return Some(KeyCommand::ToggleShortcutHelp);
            },
            _ => {},
        }
    }
    match key {
        Key::ArrowLeft | Key::ArrowUp => Some(KeyCommand::Arrow(ArrowStep::Previous)),
        Key::ArrowRight | Key::ArrowDown => Some(KeyCommand::Arrow(ArrowStep::Next)),
        Key::PageUp => Some(KeyCommand::Page(-1)),
        Key::PageDown => Some(KeyCommand::Page(1)),
        Key::Home => Some(KeyCommand::First),
        Key::End => Some(KeyCommand::Last),
        Key::KeyF => Some(KeyCommand::Fit),
        Key::Escape => if fullscreen {
            Some(KeyCommand::ToggleFullscreen)
        } else {
            Some(KeyCommand::Quit)
        },
        _ => None,
    }
}

/// The keys that the user interface knows.
pub open spec fn is_ui_key(key: Key) -> bool {
    match key {
        Key::ArrowLeft
        | Key::ArrowRight
        | Key::ArrowUp
        | Key::ArrowDown
        | Key::Enter
        | Key::Escape
        | Key::Tab
        | Key::Backspace
        | Key::Delete
        | Key::Space
        | Key::Home
        | Key::End
        | Key::PageUp
        | Key::PageDown => true,
        _ => false,
    }
}

/// Gives the key as the user interface knows it, if it does.
pub fn map_key(key: Key) -> (r: Option<Key>)
    ensures
        r == if is_ui_key(key) {
            Some(key)
        } else {
            None
        },
{
    match key {
        Key::ArrowLeft
        | Key::ArrowRight
        | Key::ArrowUp
        | Key::ArrowDown
        | Key::Enter
        | Key::Escape
        | Key::Tab
        | Key::Backspace
        | Key::Delete
        | Key::Space
        | Key::Home
        | Key::End
        | Key::PageUp
        | Key::PageDown => Some(key),
        _ => None,
    }
}

/// How long a held arrow key waits between two steps, in milliseconds.
pub const ARROW_REPEAT_MILLIS: u64 = 200;

/// A held arrow key. The first press steps at once; while the key is held, further
/// steps come from the frames, and none comes after its release.
#[derive(Debug)]
pub struct ArrowHold {
    held: Option<Key>,
    pending: Option<(Key, ArrowStep)>,
    last_step: Option<u64>,
}

/// The mathematical counterpart of [`ArrowHold`].
pub struct HoldView {
    /// The key that is held.
    pub held: Option<Key>,
    /// The key and step recorded last.
    pub pending: Option<(Key, ArrowStep)>,
    /// When the last step was taken, in milliseconds.
    pub last_step: Option<u64>,
}

impl View for ArrowHold {
    type V = HoldView;

    closed spec fn view(&self) -> HoldView {
        HoldView { held: self.held, pending: self.pending, last_step: self.last_step }
    }
}

impl HoldView {
    /// Nothing is held.
    pub open spec fn idle() -> HoldView {
        HoldView { held: None, pending: None, last_step: None }
    }

    /// The step that a press of an arrow key takes at once.
    pub open spec fn press_step(self, key: Key) -> Option<ArrowStep> {
        if self.held == Some(key) {
            None
        } else {
            step_of(key)
        }
    }

    /// The state after an arrow key was pressed.
    pub open spec fn pressed(self, key: Key, now: u64) -> HoldView {
        match step_of(key) {
            Some(step) => HoldView {
                held: Some(key),
                pending: Some((key, step)),
                last_step: if self.held == Some(key) {
                    self.last_step
                } else {
                    Some(now)
                },
            },
            None => self,
        }
    }

    /// The state after a key was released.
    pub open spec fn let_go(self, key: Key) -> HoldView {
        if step_of(key) is Some {
            HoldView { held: None, pending: None, ..self }
        } else {
            self
        }
    }

    /// The step that a frame takes.
    pub open spec fn frame_step(self, now: u64) -> Option<ArrowStep> {
        match self.pending {
            Some((key, step)) => if self.held == Some(key) && (match self.last_step {
                Some(t) => now - t >= ARROW_REPEAT_MILLIS,
                None => true,
            }) {
                Some(step)
            } else {
                None
            },
            None => None,
        }
    }

    /// The state after a frame.
    pub open spec fn framed(self, now: u64) -> HoldView {
        if self.frame_step(now) is Some {
            HoldView { last_step: Some(now), ..self }
        } else {
            self
        }
    }
}

/// After the release of an arrow key no frame takes a step, however many come and
/// whatever the time.
pub proof fn release_brakes(h: HoldView, key: Key, now: u64, later: u64)
    requires
        step_of(key) is Some,
    ensures
        h.let_go(key).frame_step(now) is None,
        h.let_go(key).framed(now) == h.let_go(key),
        h.let_go(key).framed(now).frame_step(later) is None,
{
}

/// A press steps at once unless the key is held already, and the frames of one hold
/// step no faster than the repeat time.
pub proof fn hold_rate(h: HoldView, key: Key, now: u64, later: u64)
    requires
        step_of(key) is Some,
        now <= later < now + ARROW_REPEAT_MILLIS,
    ensures
        h.held != Some(key) ==> h.press_step(key) == step_of(key),
        h.held != Some(key) ==> h.pressed(key, now).frame_step(later) is None,
        h.framed(now).held == Some(key) && h.frame_step(now) is Some ==> h.framed(now).frame_step(
            later,
        ) is None,
        h.pressed(key, now).press_step(key) is None,
{
}

/// A held key keeps stepping: once the repeat time has passed, the next frame steps.
pub proof fn hold_continues(h: HoldView, key: Key, now: u64, later: u64)
    requires
        step_of(key) is Some,
        h.held != Some(key),
        later >= now + ARROW_REPEAT_MILLIS,
    ensures
        h.pressed(key, now).frame_step(later) == step_of(key),
{
}

impl ArrowHold {
    /// Nothing is held.
    pub fn new() -> (r: Self)
        ensures
            r@ == HoldView::idle(),
    {
        ArrowHold { held: None, pending: None, last_step: None }
    }

    /// Takes a press, repeated presses included; returns the step to take at once.
    pub fn key_down(&mut self, key: Key, now: u64) -> (r: Option<ArrowStep>)
        ensures
            r == old(self)@.press_step(key),
            final(self)@ == old(self)@.pressed(key, now),
    {
        let step: ArrowStep = match key {
            Key::ArrowLeft | Key::ArrowUp => ArrowStep::Previous,
            Key::ArrowRight | Key::ArrowDown => ArrowStep::Next,
            _ => {
                return None;
            },
        };
        let fresh: bool = match self.held {
            Some(k) => k != key,
            None => true,
        };
        self.held = Some(key);
        self.pending = Some((key, step));
        if fresh {
            self.last_step = Some(now);
            Some(step)
        } else {
            None
        }
    }

    /// Takes a release.
    pub fn key_up(&mut self, key: Key)
        ensures
            final(self)@ == old(self)@.let_go(key),
    {
        match key {
            Key::ArrowLeft | Key::ArrowUp | Key::ArrowRight | Key::ArrowDown => {
                self.held = None;
                self.pending = None;
            },
            _ => {},
        }
    }

    /// Takes a frame; returns the step it takes.
    pub fn frame(&mut self, now: u64) -> (r: Option<ArrowStep>)
        ensures
            r == old(self)@.frame_step(now),
            final(self)@ == old(self)@.framed(now),
    {
        match self.pending {
            Some((key, step)) => {
                let matches: bool = match self.held {
                    Some(k) => k == key,
                    None => false,
                };
                let due: bool = match self.last_step {
                    Some(t) => now >= t && now - t >= ARROW_REPEAT_MILLIS,
                    None => true,
                };
                if matches && due {
                    self.last_step = Some(now);
                    Some(step)
                } else {
                    None
                }
            },
            None => None,
        }
    }
}

/// The keys held beside another one.
#[derive(Debug, Clone, Copy, PartialEq, Eq, Structural)]
pub struct Modifiers {
    pub alt: bool,
    pub ctrl: bool,
    pub shift: bool,
}

impl Modifiers {
    /// No key is held.
    pub open spec fn none() -> Modifiers {
        Modifiers { alt: false, ctrl: false, shift: false }
    }

    /// No key is held.
    pub fn released() -> (r: Modifiers)
        ensures
            r == Modifiers::none(),
    {
        Modifiers { alt: false, ctrl: false, shift: false }
    }
}

/// A button of the mouse.
#[derive(Debug, Clone, Copy, PartialEq, Eq, Structural)]
pub enum Button {
    Left,
    Right,
    Middle,
    Other,
}

/// A button as the user interface knows it.
#[derive(Debug, Clone, Copy, PartialEq, Eq, Structural)]
pub enum UiButton {
    Primary,
    Secondary,
    Middle,
}

/// Something that happened in the window. `P` is a position or distance in the units
/// of the user interface.
pub enum RouterInput<P> {
    CursorMoved(P),
    CursorLeft,
    MouseInput { button: Button, pressed: bool, pos: P },
    MouseWheel(P),
    Keyboard { text: Option<String>, key: Key, pressed: bool, repeat: bool },
    ModifiersChanged(Modifiers),
    Focused(bool),
}

/// The mathematical counterpart of [`RouterInput`].
#[verifier::reject_recursive_types(P)]
pub enum InputView<P> {
    CursorMoved(P),
    CursorLeft,
    MouseInput { button: Button, pressed: bool, pos: P },
    MouseWheel(P),
    Keyboard { text: Option<Seq<char>>, key: Key, pressed: bool, repeat: bool },
    ModifiersChanged(Modifiers),
    Focused(bool),
}

impl<P> View for RouterInput<P> {
    type V = InputView<P>;

    open spec fn view(&self) -> InputView<P> {
        match self {
            RouterInput::CursorMoved(p) => InputView::CursorMoved(*p),
            RouterInput::CursorLeft => InputView::CursorLeft,
            RouterInput::MouseInput { button, pressed, pos } => InputView::MouseInput {
                button: *button,
                pressed: *pressed,
                pos: *pos,
            },
            RouterInput::MouseWheel(p) => InputView::MouseWheel(*p),
            RouterInput::Keyboard { text, key, pressed, repeat } => InputView::Keyboard {
                text: match text {
                    Some(t) => Some(t@),
                    None => None,
                },
                key: *key,
                pressed: *pressed,
                repeat: *repeat,
            },
            RouterInput::ModifiersChanged(m) => InputView::ModifiersChanged(*m),
            RouterInput::Focused(f) => InputView::Focused(*f),
        }
    }
}

/// An event for the user interface.
pub enum UiEvent<P> {
    PointerMoved(P),
    PointerGone,
    PointerButton { pos: P, button: UiButton, pressed: bool, modifiers: Modifiers },
    Wheel { delta: P, modifiers: Modifiers },
    Text(String),
    Key { key: Key, pressed: bool, repeat: bool, modifiers: Modifiers },
}

/// The mathematical counterpart of [`UiEvent`].
#[verifier::reject_recursive_types(P)]
pub enum UiEventView<P> {
    PointerMoved(P),
    PointerGone,
    PointerButton { pos: P, button: UiButton, pressed: bool, modifiers: Modifiers },
    Wheel { delta: P, modifiers: Modifiers },
    Text(Seq<char>),
    Key { key: Key, pressed: bool, repeat: bool, modifiers: Modifiers },
}

impl<P> View for UiEvent<P> {
    type V = UiEventView<P>;

    open spec fn view(&self) -> UiEventView<P> {
        match self {
            UiEvent::PointerMoved(p) => UiEventView::PointerMoved(*p),
            UiEvent::PointerGone => UiEventView::PointerGone,
            UiEvent::PointerButton { pos, button, pressed, modifiers } => UiEventView::PointerButton {
                pos: *pos,
                button: *button,
                pressed: *pressed,
                modifiers: *modifiers,
            },
            UiEvent::Wheel { delta, modifiers } => UiEventView::Wheel {
                delta: *delta,
                modifiers: *modifiers,
            },
            UiEvent::Text(t) => UiEventView::Text(t@),
            UiEvent::Key { key, pressed, repeat, modifiers } => UiEventView::Key {
                key: *key,
                pressed: *pressed,
                repeat: *repeat,
                modifiers: *modifiers,
            },
        }
    }
}

/// The state of the router.
#[verifier::reject_recursive_types(P)]
#[verifier::ext_equal]
pub struct RouterView<P> {
    /// The keys held; this outlasts the frames.
    pub modifiers: Modifiers,
    /// The keys held, as the events of this frame carry them.
    pub batch: Modifiers,
    /// The events since the last frame.
    pub events: Seq<UiEventView<P>>,
}

/// The button as the user interface knows it.
pub open spec fn ui_button(b: Button) -> Option<UiButton> {
    match b {
        Button::Left => Some(UiButton::Primary),
        Button::Right => Some(UiButton::Secondary),
        Button::Middle => Some(UiButton::Middle),
        Button::Other => None,
    }
}

/// The text of a key, where it has one.
pub open spec fn text_view(text: Option<String>) -> Option<Seq<char>> {
    match text {
        Some(t) => Some(t@),
        None => None,
    }
}

/// The events that a key makes: its text, if it has any, then the key, if it is known.
pub open spec fn key_events<P>(
    text: Option<Seq<char>>,
    key: Key,
    pressed: bool,
    repeat: bool,
    modifiers: Modifiers,
) -> Seq<UiEventView<P>> {
    let first: Seq<UiEventView<P>> = match text {
        Some(t) => if t.len() > 0 {
            seq![UiEventView::Text(t)]
        } else {
            Seq::empty()
        },
        None => Seq::empty(),
    };
    if is_ui_key(key) {
        first.push(UiEventView::Key { key, pressed, repeat, modifiers })
    } else {
        first
    }
}

impl<P> RouterView<P> {
    /// The events that an input makes.
    pub open spec fn events_for(self, e: InputView<P>) -> Seq<UiEventView<P>> {
        match e {
            InputView::CursorMoved(p) => seq![UiEventView::PointerMoved(p)],
            InputView::CursorLeft => seq![UiEventView::PointerGone],
            InputView::MouseInput { button, pressed, pos } => match ui_button(button) {
                Some(b) => seq![
                    UiEventView::PointerButton { pos, button: b, pressed, modifiers: self.batch },
                ],
                None => Seq::empty(),
            },
            InputView::MouseWheel(d) => seq![UiEventView::Wheel { delta: d, modifiers: self.batch }],
            InputView::Keyboard { text, key, pressed, repeat } => key_events(
                text,
                key,
                pressed,
                repeat,
                self.batch,
            ),
            InputView::ModifiersChanged(_) => Seq::empty(),
            InputView::Focused(_) => Seq::empty(),
        }
    }

    /// The state after an input. Losing the focus lets go of all held keys.
    pub open spec fn forwarded(self, e: InputView<P>) -> RouterView<P> {
        match e {
            InputView::ModifiersChanged(m) => RouterView { modifiers: m, batch: m, ..self },
            InputView::Focused(focused) => if focused {
                self
            } else {
                RouterView { modifiers: Modifiers::none(), batch: Modifiers::none(), ..self }
            },
            _ => RouterView { events: self.events + self.events_for(e), ..self },
        }
    }

    /// The state after a frame has taken the events.
    pub open spec fn taken(self) -> RouterView<P> {
        RouterView { batch: Modifiers::none(), events: Seq::empty(), ..self }
    }
}

/// The held keys outlast the frames: only a change of them, or the loss of the
/// focus, changes what is held.
pub proof fn modifiers_outlast_frames<P>(r: RouterView<P>, e: InputView<P>)
    ensures
        r.taken().modifiers == r.modifiers,
        e !is ModifiersChanged && e !is Focused ==> r.forwarded(e).modifiers == r.modifiers,
        e matches InputView::ModifiersChanged(m) ==> r.forwarded(e).taken().modifiers == m,
        e == InputView::<P>::Focused(false) ==> r.forwarded(e).modifiers == Modifiers::none(),
{
}

/// Collects the events between two frames.
pub struct RouterState<P> {
    modifiers: Modifiers,
    pending_modifiers: Modifiers,
    pending: Vec<UiEvent<P>>,
}

impl<P> View for RouterState<P> {
    type V = RouterView<P>;

    closed spec fn view(&self) -> RouterView<P> {
        RouterView {
            modifiers: self.modifiers,
            batch: self.pending_modifiers,
            events: crate::sort::views(self.pending@),
        }
    }
}

impl<P> RouterState<P> {
    /// Nothing has happened yet.
    pub fn new() -> (r: Self)
        ensures
            r@ == (RouterView::<P> {
                modifiers: Modifiers::none(),
                batch: Modifiers::none(),
                events: Seq::empty(),
            }),
    {
        let r = RouterState {
            modifiers: Modifiers::released(),
            pending_modifiers: Modifiers::released(),
            pending: Vec::new(),
        };
        assert(r@.events =~= Seq::empty());
        r
    }

    /// The keys that are held.
    pub fn modifiers(&self) -> (r: Modifiers)
        ensures
            r == self@.modifiers,
    {
        self.modifiers
    }

    /// Gives the events for this frame, with the keys held, and starts anew.
    pub fn take_pending(&mut self) -> (r: (Vec<UiEvent<P>>, Modifiers))
        ensures
            crate::sort::views(r.0@) == old(self)@.events,
            r.1 == old(self)@.batch,
            final(self)@ == old(self)@.taken(),
    {
        let ghost start = self@;
        let mut events: Vec<UiEvent<P>> = Vec::new();
        std::mem::swap(&mut events, &mut self.pending);
        let held: Modifiers = self.pending_modifiers;
        self.pending_modifiers = Modifiers::released();
        assert(self@ =~= start.taken());
        (events, held)
    }

    fn note(&mut self, e: UiEvent<P>)
        ensures
            final(self)@ == (RouterView { events: old(self)@.events.push(e@), ..old(self)@ }),
    {
        let ghost before = self@;
        let ghost ev = e@;
        self.pending.push(e);
        assert(self@ =~= (RouterView { events: before.events.push(ev), ..before }));
    }

    /// Takes an input in.
    pub fn forward_to_egui(&mut self, e: RouterInput<P>)
        ensures
            final(self)@ == old(self)@.forwarded(e@),
    {
        let ghost start = self@;
        let ghost ev = e@;
        match e {
            RouterInput::CursorMoved(p) => {
                self.note(UiEvent::PointerMoved(p));
            },
            RouterInput::CursorLeft => {
                self.note(UiEvent::PointerGone);
            },
            RouterInput::MouseInput { button, pressed, pos } => {
                let known: Option<UiButton> = match button {
                    Button::Left => Some(UiButton::Primary),
                    Button::Right => Some(UiButton::Secondary),
                    Button::Middle => Some(UiButton::Middle),
                    Button::Other => None,
                };
                match known {
                    Some(b) => {
                        let modifiers: Modifiers = self.pending_modifiers;
                        self.note(UiEvent::PointerButton { pos, button: b, pressed, modifiers });
                    },
                    None => {},
                }
            },
            RouterInput::MouseWheel(delta) => {
                let modifiers: Modifiers = self.pending_modifiers;
                self.note(UiEvent::Wheel { delta, modifiers });
            },
            RouterInput::Keyboard { text, key, pressed, repeat } => {
                self.forward_key_event(text, key, pressed, repeat);
            },
            RouterInput::ModifiersChanged(m) => {
                self.modifiers = m;
                self.pending_modifiers = m;
            },
            RouterInput::Focused(focused) => {
                if !focused {
                    self.modifiers = Modifiers::released();
                    self.pending_modifiers = Modifiers::released();
                }
            },
        }
        assert(self@.events =~= start.forwarded(ev).events);
        assert(self@ =~= start.forwarded(ev));
    }

    /// Takes a key in: first its text, then the key itself.
    pub fn forward_key_event(&mut self, text: Option<String>, key: Key, pressed: bool, repeat: bool)
        ensures
            final(self)@ == (RouterView {
                events: old(self)@.events + key_events(
                    text_view(text),
                    key,
                    pressed,
                    repeat,
                    old(self)@.batch,
                ),
                ..old(self)@
            }),
    {
        let ghost start = self@;
        let ghost tv = text_view(text);
        match text {
            Some(t) => {
                if !t.as_str().is_empty() {
                    self.note(UiEvent::Text(t));
                }
            },
            None => {},
        }
        match map_key(key) {
            Some(k) => {
                let modifiers: Modifiers = self.pending_modifiers;
                self.note(UiEvent::Key { key: k, pressed, repeat, modifiers });
            },
            None => {},
        }
        assert(self@.events =~= start.events + key_events(
            tv,
            key,
            pressed,
            repeat,
            start.batch,
        ));
    }
}

/// The buttons that the user interface knows: left, right and middle, each as one of its
/// own.
pub proof fn buttons_are_known(b: Button)
    ensures
        ui_button(b) == Some(UiButton::Primary) <==> b == Button::Left,
        ui_button(b) == Some(UiButton::Secondary) <==> b == Button::Right,
        ui_button(b) == Some(UiButton::Middle) <==> b == Button::Middle,
        ui_button(b) is None <==> b == Button::Other,
{
}

/// The user interface knows the keys for moving about and for editing; letters, digits
/// and signs reach it as text alone.
pub proof fn keys_for_the_interface(key: Key)
    ensures
        !is_ui_key(key) <==> {
            ||| key == Key::KeyF
            ||| key == Key::KeyW
            ||| key == Key::KeyE
            ||| key == Key::KeyD
            ||| key == Key::Digit0
            ||| key == Key::Equal
            ||| key == Key::Minus
            ||| key == Key::NumpadAdd
            ||| key == Key::NumpadSubtract
            ||| key == Key::Slash
            ||| key == Key::Other
        },
{
}

/// What happens with the pointer becomes one event each, behind those before it, with the
/// keys held where the user interface asks for them. An unknown button makes none.
pub proof fn pointer_events<P>(r: RouterView<P>, p: P, button: Button, pressed: bool)
    ensures
        r.forwarded(InputView::CursorMoved(p)).events == r.events.push(
            UiEventView::PointerMoved(p),
        ),
        r.forwarded(InputView::CursorLeft).events == r.events.push(UiEventView::PointerGone),
        r.forwarded(InputView::MouseWheel(p)).events == r.events.push(
            UiEventView::Wheel { delta: p, modifiers: r.batch },
        ),
        r.forwarded(InputView::MouseInput { button: Button::Left, pressed, pos: p }).events
            == r.events.push(
            UiEventView::PointerButton {
                pos: p,
                button: UiButton::Primary,
                pressed,
                modifiers: r.batch,
            },
        ),
        r.forwarded(InputView::MouseInput { button: Button::Right, pressed, pos: p }).events
            == r.events.push(
            UiEventView::PointerButton {
                pos: p,
                button: UiButton::Secondary,
                pressed,
                modifiers: r.batch,
            },
        ),
        r.forwarded(InputView::MouseInput { button: Button::Middle, pressed, pos: p }).events
            == r.events.push(
            UiEventView::PointerButton {
                pos: p,
                button: UiButton::Middle,
                pressed,
                modifiers: r.batch,
            },
        ),
        r.forwarded(InputView::MouseInput { button: Button::Other, pressed, pos: p }).events
            == r.events,
{
    let e = InputView::MouseInput { button: Button::Other, pressed, pos: p };
    assert(r.events + r.events_for(e) =~= r.events);
    assert(r.events + seq![UiEventView::PointerMoved(p)] =~= r.events.push(
        UiEventView::PointerMoved(p),
    ));
    assert(r.events + seq![UiEventView::PointerGone] =~= r.events.push(UiEventView::PointerGone));
    let w = UiEventView::Wheel { delta: p, modifiers: r.batch };
    assert(r.events + seq![w] =~= r.events.push(w));
    let a = UiEventView::PointerButton {
        pos: p,
        button: UiButton::Primary,
        pressed,
        modifiers: r.batch,
    };
    let b = UiEventView::PointerButton {
        pos: p,
        button: UiButton::Secondary,
        pressed,
        modifiers: r.batch,
    };
    let c = UiEventView::PointerButton {
        pos: p,
        button: UiButton::Middle,
        pressed,
        modifiers: r.batch,
    };
    assert(r.events + seq![a] =~= r.events.push(a));
    assert(r.events + seq![b] =~= r.events.push(b));
    assert(r.events + seq![c] =~= r.events.push(c));
}

/// A key becomes its text, where it has any, and then the key, where the user interface
/// knows it, with the keys held beside it.
pub proof fn key_presses<P>(
    r: RouterView<P>,
    t: Seq<char>,
    key: Key,
    pressed: bool,
    repeat: bool,
)
    requires
        t.len() > 0,
    ensures
        ({
            let typed = r.forwarded(
                InputView::Keyboard { text: Some(t), key, pressed, repeat },
            ).events;
            let bare = r.forwarded(InputView::Keyboard { text: None, key, pressed, repeat }).events;
            let blank = r.forwarded(
                InputView::Keyboard { text: Some(Seq::empty()), key, pressed, repeat },
            ).events;
            let k = UiEventView::Key { key, pressed, repeat, modifiers: r.batch };
            &&& is_ui_key(key) ==> typed == r.events.push(UiEventView::Text(t)).push(k)
            &&& !is_ui_key(key) ==> typed == r.events.push(UiEventView::Text(t))
            &&& is_ui_key(key) ==> bare == r.events.push(k)
            &&& !is_ui_key(key) ==> bare == r.events
            &&& blank == bare
        }),
{
    let k = UiEventView::<P>::Key { key, pressed, repeat, modifiers: r.batch };
    let x = UiEventView::<P>::Text(t);
    assert(r.events + seq![x] =~= r.events.push(x));
    assert(r.events + seq![x].push(k) =~= r.events.push(x).push(k));
    assert(r.events + Seq::<UiEventView<P>>::empty() =~= r.events);
    assert(r.events + Seq::<UiEventView<P>>::empty().push(k) =~= r.events.push(k));
}

/// A frame takes all events, and starts anew without any; the keys held count for the
/// events of the frame in which they changed.
pub proof fn frames_take_events<P>(r: RouterView<P>, m: Modifiers)
    ensures
        r.taken().events.len() == 0,
        r.taken().batch == Modifiers::none(),
        r.forwarded(InputView::ModifiersChanged(m)).events == r.events,
        r.forwarded(InputView::ModifiersChanged(m)).batch == m,
        r.forwarded(InputView::Focused(true)) == r,
        r.forwarded(InputView::Focused(false)).events == r.events,
        r.forwarded(InputView::Focused(false)).batch == Modifiers::none(),
        Modifiers::none() == (Modifiers { alt: false, ctrl: false, shift: false }),
{
}

/// Another arrow key takes over at once: it steps in its own direction, and the frames
/// follow it. Keys that are no arrows neither hold nor let go of anything.
pub proof fn another_arrow_takes_over(h: HoldView, key: Key, other: Key, now: u64, later: u64)
    requires
        step_of(key) is Some,
        step_of(other) is Some,
        key != other,
        later >= now + 200,
    ensures
        h.pressed(key, now).press_step(other) == step_of(other),
        h.pressed(key, now).pressed(other, now).held == Some(other),
        h.pressed(key, now).pressed(other, now).frame_step(later) == step_of(other),
        forall|k: Key|
            step_of(k) is None ==> #[trigger] h.pressed(k, now) == h && h.let_go(k) == h
                && h.press_step(k) is None,
        h.let_go(key).held is None,
        h.let_go(key).pending is None,
{
}

/// A held key that has not stepped yet steps with the next frame; after that it waits for
/// its time. A key that is not the one held takes no step with a frame.
pub proof fn frames_step_for_the_held_key(h: HoldView, key: Key, step: ArrowStep, now: u64)
    requires
        h.pending == Some((key, step)),
    ensures
        h.held == Some(key) && h.last_step is None ==> h.frame_step(now) == Some(step)
            && h.framed(now).last_step == Some(now),
        h.held != Some(key) ==> h.frame_step(now) is None && h.framed(now) == h,
        h.framed(now).held == h.held && h.framed(now).pending == h.pending,
{
}

} // verus!
