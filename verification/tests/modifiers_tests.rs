use a2pi::input::KbDriverInput;
use a2pi::input::Modifiers;
use a2pi::kbmap::Key;
use a2pi::kbmap::KeyboardMapEntrant;

#[test]
fn defined_codes_round_trip() {
    let codes: Vec<u8> = vec![
        0x00, 0x40, 0x80, 0xC0, 0x01, 0x02, 0x04, 0x41, 0x42, 0x43, 0x44, 0x46, 0x47, 0x81, 0x82,
        0x83, 0x84, 0x86, 0x87, 0xC1, 0xC2, 0xC3, 0xC4, 0xC6, 0xC7, 0x03, 0x07, 0x05,
    ];
    for code in codes {
        let m = Modifiers::get(code).expect("defined modifier code");
        assert_eq!(m.code(), code);
    }
}

#[test]
fn undefined_codes_resolve_to_none() {
    for code in [0x06u8, 0x08, 0x45, 0x85, 0xC5, 0x10, 0x20, 0xFF] {
        assert!(Modifiers::get(code).is_none());
    }
}

#[test]
fn single_switches_are_not_multiple() {
    assert!(!Modifiers::Bare.is_multiple());
    assert!(!Modifiers::OpenApple.is_multiple());
    assert!(!Modifiers::ClosedApple.is_multiple());
    assert!(!Modifiers::Control.is_multiple());
    assert!(!Modifiers::Reset.is_multiple());
    assert!(!Modifiers::Shift.is_multiple());
    assert!(Modifiers::OpenClosedApple.is_multiple());
    assert!(Modifiers::ControlShift.is_multiple());
    assert!(Modifiers::OpenAppleShiftResetControl.is_multiple());
}

#[test]
fn switch_names_render() {
    assert_eq!(Modifiers::Bare.outer_as_string(), "bare");
    assert_eq!(Modifiers::OpenApple.outer_as_string(), "open");
    assert_eq!(Modifiers::ClosedApple.outer_as_string(), "closed");
    assert_eq!(Modifiers::Control.outer_as_string(), "control");
    assert_eq!(Modifiers::Reset.outer_as_string(), "reset");
    assert_eq!(Modifiers::Shift.outer_as_string(), "shift");
    assert_eq!(Modifiers::ControlReset.outer_as_string(), "");
}

#[test]
fn from_key_resolves_modifier_and_direction() {
    let key = Key::define(0x20, 0xA0, vec![KeyboardMapEntrant::Keyboard(0x04)]);
    let up = KbDriverInput::from_key(0x40, key.clone(), KbDriverInput::KeyUp);
    match up {
        KbDriverInput::KeyUpEvent(m, action, s) => {
            assert_eq!(m, Modifiers::OpenApple);
            assert_eq!(action, 0xA0);
            assert_eq!(s, "");
        }
        _ => panic!("expected a key-up event"),
    }
    let down = KbDriverInput::from_key(0x40, key.clone(), KbDriverInput::KeyDown);
    assert!(matches!(down, KbDriverInput::KeyDownEvent(..)));
    // an undefined modifier code falls back to bare
    let bare = KbDriverInput::from_key(0x55, key, KbDriverInput::KeyDown);
    match bare {
        KbDriverInput::KeyDownEvent(m, _, _) => assert_eq!(m, Modifiers::Bare),
        _ => panic!("expected a key-down event"),
    }
}
