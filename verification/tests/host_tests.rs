use a2pi::errors::A2PiError;
use a2pi::host::KbDriver;
use a2pi::host::KbDriverInput;
use a2pi::host::KbDriverState;
use a2pi::host::Key;
use a2pi::host::KeyMap;
use a2pi::host::Modifiers;

fn demo_driver() -> KbDriver {
    let mut map = KeyMap::empty();
    // down codes carry the high bit on this map; 0x6e is the masked slot
    map.set_entry(0x6e, Key { key: String::from("n"), action: String::from("0xee") });
    map.set_entry(0xa0, Key { key: String::from(" "), action: String::from("0xa0") });
    KbDriver::init(map)
}

#[test]
fn host_modifier_codes_round_trip() {
    for code in [0x00u8, 0x40, 0x80, 0xC0] {
        let m = Modifiers::get(code).expect("defined host modifier");
        assert_eq!(m.inner(), code);
    }
    assert!(Modifiers::get(0x01).is_none());
    assert!(Modifiers::get(0x41).is_none());
    assert!(Modifiers::get(0xFF).is_none());
}

#[test]
fn host_modifier_names_render() {
    assert_eq!(Modifiers::Bare(0x00).outer_as_string(), "bare");
    assert_eq!(Modifiers::OpenApple(0x40).outer_as_string(), "open");
    assert_eq!(Modifiers::ClosedApple(0x80).outer_as_string(), "closed");
    assert_eq!(Modifiers::OpenClosedApple(0xC0).outer_as_string(), "open_closed");
}

#[test]
fn lookup_scan_code_hits_exactly_or_by_mask() {
    let driver = demo_driver();
    // exact hit: the slot itself is filled
    let (exact, key) = driver.lookup_scan_code(0x6e);
    assert!(exact);
    assert_eq!(key.expect("mapped").key, "n");
    // masked hit: 0xee masks down to 0x6e
    let (exact, key) = driver.lookup_scan_code(0xee);
    assert!(!exact);
    assert_eq!(key.expect("mapped via mask").key, "n");
    // miss both ways
    let (exact, key) = driver.lookup_scan_code(0x11);
    assert!(!exact);
    assert!(key.is_none());
}

#[test]
fn find_scan_code_reads_one_slot() {
    let driver = demo_driver();
    let k = driver.key_map.find_scan_code(0x6e).expect("filled slot");
    assert_eq!(k.key, "n");
    assert_eq!(k.action, "0xee");
    assert!(driver.key_map.find_scan_code(0x00).is_none());
}

#[test]
fn bad_marker_is_an_invalid_payload() {
    let driver = demo_driver();
    let r = KbDriverInput::from_apple_ii(&vec![0x98, 0x00, 0x6e], &driver);
    assert_eq!(r.unwrap_err(), A2PiError::InvalidKBPayload);
}

#[test]
fn bad_modifier_is_an_invalid_modifier() {
    let driver = demo_driver();
    let r = KbDriverInput::from_apple_ii(&vec![0x82, 0x55, 0x6e], &driver);
    assert_eq!(r.unwrap_err(), A2PiError::InvalidKBModifier);
}

#[test]
fn unmapped_scan_code_is_an_invalid_input() {
    let driver = demo_driver();
    let r = KbDriverInput::from_apple_ii(&vec![0x82, 0x40, 0x11], &driver);
    assert_eq!(r.unwrap_err(), A2PiError::InvalidKBInput);
}

#[test]
fn exact_hit_decodes_as_key_up_and_masked_as_key_down() {
    let driver = demo_driver();
    let up = KbDriverInput::from_apple_ii(&vec![0x82, 0x40, 0x6e], &driver)
        .unwrap()
        .unwrap();
    match up {
        KbDriverInput::KeyUp(m, code, text) => {
            assert_eq!(m, Modifiers::OpenApple(0x40));
            assert_eq!(code, 0x6e);
            assert_eq!(text, "n");
        }
        _ => panic!("an exact hit is a key up"),
    }
    let down = KbDriverInput::from_apple_ii(&vec![0x82, 0x00, 0xee], &driver)
        .unwrap()
        .unwrap();
    match down {
        KbDriverInput::KeyDown(m, code, text) => {
            assert_eq!(m, Modifiers::Bare(0x00));
            assert_eq!(code, 0xee);
            assert_eq!(text, "n");
        }
        _ => panic!("a masked hit is a key down"),
    }
}

#[test]
fn to_ascii_lowers_the_action_text() {
    let k = Key { key: String::from("N"), action: String::from("0xEE AB-z") };
    assert_eq!(k.to_ascii(), "0xee ab-z");
    let k = Key { key: String::from("n"), action: String::from("already low") };
    assert_eq!(k.to_ascii(), "already low");
}

#[test]
fn invert_swaps_the_direction() {
    let down = KbDriverInput::KeyDown(Modifiers::Bare(0x00), 0x20, String::from("a"));
    let up = down.invert();
    assert!(matches!(up, KbDriverInput::KeyUp(..)));
    assert!(matches!(up.invert(), KbDriverInput::KeyDown(..)));
}

#[test]
fn modified_key_down_opens_a_chain_window() {
    let mut st = KbDriverState::reset();
    st.process_input(
        KbDriverInput::KeyDown(Modifiers::OpenApple(0x40), 0x6e, String::from("n")),
        1_000,
    );
    assert_eq!(st.last_press_epoch_ms, Some(1_000));
    assert_eq!(st.active_keys, vec![0x6e]);
    assert_eq!(st.active_modifiers.len(), 1);
    assert_eq!(st.chained_key_inputs.len(), 1);
}

#[test]
fn bare_key_down_opens_no_window_but_joins_the_chain() {
    let mut st = KbDriverState::reset();
    st.process_input(
        KbDriverInput::KeyDown(Modifiers::Bare(0x00), 0x20, String::from("a")),
        1_000,
    );
    assert_eq!(st.last_press_epoch_ms, None);
    assert_eq!(st.active_keys, vec![0x20]);
}

#[test]
fn key_down_past_the_window_resets_the_chain() {
    let mut st = KbDriverState::reset();
    st.process_input(
        KbDriverInput::KeyDown(Modifiers::OpenApple(0x40), 0x6e, String::from("n")),
        1_000,
    );
    st.process_input(
        KbDriverInput::KeyDown(Modifiers::Bare(0x00), 0x20, String::from("a")),
        1_400,
    );
    assert_eq!(st.active_keys, vec![0x6e, 0x20], "within the window the chain grows");
    st.process_input(
        KbDriverInput::KeyDown(Modifiers::Bare(0x00), 0x21, String::from("b")),
        2_000,
    );
    assert_eq!(st.last_press_epoch_ms, None, "past the window the chain resets");
    assert_eq!(st.active_keys, vec![0x21]);
    assert_eq!(st.active_modifiers.len(), 1);
}

#[test]
fn key_up_clears_only_outside_a_window() {
    let mut st = KbDriverState::reset();
    st.process_input(
        KbDriverInput::KeyDown(Modifiers::Bare(0x00), 0x20, String::from("a")),
        1_000,
    );
    st.process_input(KbDriverInput::KeyUp(Modifiers::Bare(0x00), 0x20, String::from("a")), 1_010);
    assert!(st.active_keys.is_empty(), "no window open: key up clears the chain");

    let mut st = KbDriverState::reset();
    st.process_input(
        KbDriverInput::KeyDown(Modifiers::OpenApple(0x40), 0x6e, String::from("n")),
        1_000,
    );
    st.process_input(
        KbDriverInput::KeyUp(Modifiers::OpenApple(0x40), 0x6e, String::from("n")),
        1_010,
    );
    assert_eq!(st.active_keys, vec![0x6e], "inside a window a key up is a no-op");
}
