use aperture::keys::{
    key_command, map_key, ArrowHold, ArrowStep, Button, Key, KeyCommand, Modifiers, RouterInput,
    RouterState, UiButton, UiEvent, ARROW_REPEAT_MILLIS,
};

#[test]
fn keys_ask_for_commands() {
    assert_eq!(
        key_command(Key::ArrowLeft, false, false),
        Some(KeyCommand::Arrow(ArrowStep::Previous))
    );
    assert_eq!(key_command(Key::ArrowDown, false, false), Some(KeyCommand::Arrow(ArrowStep::Next)));
    assert_eq!(key_command(Key::ArrowUp, true, false), Some(KeyCommand::CycleFolder(-1)));
    assert_eq!(key_command(Key::ArrowRight, true, false), Some(KeyCommand::CycleFolder(1)));
    assert_eq!(key_command(Key::PageUp, false, false), Some(KeyCommand::Page(-1)));
    assert_eq!(key_command(Key::PageDown, true, false), Some(KeyCommand::Page(1)));
    assert_eq!(key_command(Key::Home, false, false), Some(KeyCommand::First));
    assert_eq!(key_command(Key::End, false, false), Some(KeyCommand::Last));
    assert_eq!(key_command(Key::KeyF, false, false), Some(KeyCommand::Fit));
    assert_eq!(key_command(Key::KeyF, true, false), Some(KeyCommand::ToggleFullscreen));
    assert_eq!(key_command(Key::Digit0, true, false), Some(KeyCommand::Fit));
    assert_eq!(key_command(Key::Digit0, false, false), None);
    assert_eq!(key_command(Key::NumpadAdd, true, false), Some(KeyCommand::ZoomIn));
    assert_eq!(key_command(Key::Minus, true, false), Some(KeyCommand::ZoomOut));
    assert_eq!(key_command(Key::Escape, false, true), Some(KeyCommand::ToggleFullscreen));
    assert_eq!(key_command(Key::Escape, true, false), Some(KeyCommand::Quit));
    assert_eq!(key_command(Key::KeyW, true, false), Some(KeyCommand::SetWallpaper));
    assert_eq!(key_command(Key::KeyE, true, false), Some(KeyCommand::OpenInExplorer));
    assert_eq!(key_command(Key::KeyD, true, false), Some(KeyCommand::ToggleFavorite));
    assert_eq!(key_command(Key::Slash, true, false), Some(KeyCommand::ToggleShortcutHelp));
    assert_eq!(key_command(Key::KeyD, false, false), None);
    assert_eq!(key_command(Key::Enter, true, false), None);
}

#[test]
fn keys_of_the_user_interface() {
    for k in [Key::ArrowLeft, Key::Enter, Key::Escape, Key::Tab, Key::Space, Key::PageDown] {
        assert_eq!(map_key(k), Some(k));
    }
    assert_eq!(map_key(Key::KeyF), None);
    assert_eq!(map_key(Key::Other), None);
}

#[test]
fn a_tap_steps_at_once() {
    let mut h = ArrowHold::new();
    assert_eq!(h.key_down(Key::ArrowRight, 1000), Some(ArrowStep::Next));
    assert_eq!(h.key_down(Key::ArrowRight, 1030), None);
    assert_eq!(h.frame(1050), None);
    h.key_up(Key::ArrowRight);
    assert_eq!(h.frame(2000), None);
    assert_eq!(h.key_down(Key::ArrowRight, 2001), Some(ArrowStep::Next));
}

#[test]
fn a_held_key_keeps_stepping() {
    let mut h = ArrowHold::new();
    h.key_down(Key::ArrowUp, 0);
    assert_eq!(h.frame(ARROW_REPEAT_MILLIS - 1), None);
    assert_eq!(h.frame(ARROW_REPEAT_MILLIS), Some(ArrowStep::Previous));
    assert_eq!(h.frame(ARROW_REPEAT_MILLIS + 1), None);
    assert_eq!(h.frame(2 * ARROW_REPEAT_MILLIS), Some(ArrowStep::Previous));
    assert_eq!(ARROW_REPEAT_MILLIS, 200);
}

#[test]
fn a_release_brakes() {
    let mut h = ArrowHold::new();
    h.key_down(Key::ArrowLeft, 0);
    h.key_down(Key::ArrowLeft, 30);
    h.key_up(Key::ArrowLeft);
    assert_eq!(h.frame(10_000), None);
    assert_eq!(h.frame(20_000), None);
}

#[test]
fn another_arrow_steps_at_once() {
    let mut h = ArrowHold::new();
    h.key_down(Key::ArrowLeft, 0);
    assert_eq!(h.key_down(Key::ArrowRight, 10), Some(ArrowStep::Next));
    assert_eq!(h.key_down(Key::Enter, 10), None);
    h.key_up(Key::Enter);
    assert_eq!(h.frame(500), Some(ArrowStep::Next));
}

#[test]
fn events_are_collected_between_frames() {
    let mut r: RouterState<(i32, i32)> = RouterState::new();
    let ctrl = Modifiers { alt: false, ctrl: true, shift: false };
    r.forward_to_egui(RouterInput::ModifiersChanged(ctrl));
    r.forward_to_egui(RouterInput::CursorMoved((3, 4)));
    r.forward_to_egui(RouterInput::MouseInput {
        button: Button::Right,
        pressed: true,
        pos: (3, 4),
    });
    r.forward_to_egui(RouterInput::MouseInput {
        button: Button::Other,
        pressed: true,
        pos: (3, 4),
    });
    r.forward_to_egui(RouterInput::MouseWheel((0, 24)));
    r.forward_to_egui(RouterInput::CursorLeft);
    let (events, held) = r.take_pending();
    assert_eq!(held, ctrl);
    assert_eq!(events.len(), 4);
    assert!(matches!(events[0], UiEvent::PointerMoved((3, 4))));
    assert!(matches!(
        events[1],
        UiEvent::PointerButton { button: UiButton::Secondary, pressed: true, modifiers, .. }
        if modifiers == ctrl
    ));
    assert!(matches!(events[2], UiEvent::Wheel { delta: (0, 24), .. }));
    assert!(matches!(events[3], UiEvent::PointerGone));
}

#[test]
fn held_keys_outlast_the_frames() {
    let mut r: RouterState<()> = RouterState::new();
    let ctrl = Modifiers { alt: false, ctrl: true, shift: false };
    r.forward_to_egui(RouterInput::ModifiersChanged(ctrl));
    r.take_pending();
    assert_eq!(r.modifiers(), ctrl);
    let (events, held) = r.take_pending();
    assert!(events.is_empty());
    assert_eq!(held, Modifiers::released());
    r.forward_to_egui(RouterInput::Focused(true));
    assert_eq!(r.modifiers(), ctrl);
    r.forward_to_egui(RouterInput::Focused(false));
    assert_eq!(r.modifiers(), Modifiers::released());
}

#[test]
fn keys_bring_their_text_first() {
    let mut r: RouterState<()> = RouterState::new();
    r.forward_to_egui(RouterInput::Keyboard {
        text: Some(" ".to_string()),
        key: Key::Space,
        pressed: true,
        repeat: true,
    });
    r.forward_key_event(Some(String::new()), Key::KeyF, true, false);
    r.forward_key_event(None, Key::Enter, false, false);
    let (events, _) = r.take_pending();
    assert_eq!(events.len(), 3);
    match &events[0] {
        UiEvent::Text(t) => assert_eq!(t, " "),
        _ => panic!("no text"),
    }
    assert!(matches!(events[1], UiEvent::Key { key: Key::Space, pressed: true, repeat: true, .. }));
    assert!(matches!(events[2], UiEvent::Key { key: Key::Enter, pressed: false, .. }));
}
