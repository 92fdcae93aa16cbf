use kernel::renderer::keyboard_interface::{key_action, typed, Key, KeyAction, KeyState, Typed};

#[test]
fn pressed_keys_move_the_cursor() {
    assert_eq!(key_action(Key::Delete, KeyState::Down), KeyAction::Nothing);
    assert_eq!(key_action(Key::Backspace, KeyState::Down), KeyAction::CursorLeft);
    assert_eq!(key_action(Key::ArrowLeft, KeyState::Down), KeyAction::CursorLeft);
    assert_eq!(key_action(Key::ArrowRight, KeyState::Down), KeyAction::CursorRight);
    assert_eq!(key_action(Key::ArrowUp, KeyState::Down), KeyAction::CursorUp);
    assert_eq!(key_action(Key::ArrowDown, KeyState::Down), KeyAction::CursorDown);
    assert_eq!(key_action(Key::Other, KeyState::Down), KeyAction::Decode);
}

#[test]
fn released_keys_go_to_the_layout() {
    for key in [
        Key::Delete,
        Key::Backspace,
        Key::ArrowLeft,
        Key::ArrowRight,
        Key::ArrowUp,
        Key::ArrowDown,
        Key::Other,
    ] {
        assert_eq!(key_action(key, KeyState::Up), KeyAction::Decode);
        assert_eq!(key_action(key, KeyState::SingleShot), KeyAction::Decode);
    }
}

#[test]
fn ascii_characters_are_input() {
    assert_eq!(typed('a'), Typed::Input(b'a'));
    assert_eq!(typed('\n'), Typed::Input(10));
    assert_eq!(typed('\u{7f}'), Typed::Input(127));
    assert_eq!(typed('\u{80}'), Typed::Described);
    assert_eq!(typed('é'), Typed::Described);
}
