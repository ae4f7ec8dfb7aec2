use a2pi::input::KbDriverInput;
use a2pi::input::Modifiers;
use a2pi::kbmap::Key;
use a2pi::kbmap::KeyboardMapEntrant;
use a2pi::state::KeyState;

fn event(down: u8, up: u8, code: u8) -> (Key, KbDriverInput) {
    (Key::define(down, up, vec![KeyboardMapEntrant::Keyboard(code)]), KbDriverInput::KeyDown)
}

#[test]
fn fresh_state_has_nothing_pressed() {
    let st = KeyState::init();
    assert!(!st.previously_pressed(0x00, 0x20));
    assert!(!st.last_pressed(0x00, 0x20));
}

#[test]
fn of_single_key_registers_one_pair() {
    let st = KeyState::of_single_key((0x80, 0x6e, vec![]));
    assert!(st.previously_pressed(0x80, 0x6e));
    assert!(st.last_pressed(0x80, 0x6e));
    assert!(!st.previously_pressed(0x80, 0x00));
}

#[test]
fn handle_modifier_event_folds_the_layer() {
    let mut st = KeyState::init();
    assert_eq!(st.handle_modifier_event(vec![]), 0x00);
    assert_eq!(st.handle_modifier_event(vec![Modifiers::Control]), 0x01);
    assert_eq!(
        st.handle_modifier_event(vec![Modifiers::ClosedApple, Modifiers::Control, Modifiers::Shift]),
        0x85
    );
}

#[test]
fn handle_key_event_tracks_the_single_key() {
    let mut st = KeyState::init();
    let (handled, modified) = st.handle_key_event(0x80, Some(event(0x6e, 0xee, 0x11)));
    assert!(handled);
    assert!(modified.is_some(), "shifted non-bare key hands a state copy back");
    assert!(st.previously_pressed(0x80, 0x6e));

    let (handled, modified) = st.handle_key_event(0x00, Some(event(0x20, 0x20, 0x04)));
    assert!(handled);
    assert!(modified.is_none(), "unshifted key hands no copy back");
    assert!(st.previously_pressed(0x00, 0x20));
    assert!(!st.previously_pressed(0x80, 0x6e), "the active set holds the last key alone");

    let (handled, modified) = st.handle_key_event(0x80, None);
    assert!(!handled);
    assert!(modified.is_none());
}

#[test]
fn record_then_remove_round_trips_the_log() {
    let mut st = KeyState::init();
    st.record_key_event(0x00, 0x20, event(0x20, 0x20, 0x04));
    assert_eq!(st.oracle.temporal_logs.len(), 1);
    st.remove_key_event(0x00, 0x20, event(0x20, 0x20, 0x04));
    assert!(st.oracle.temporal_logs.is_empty());
}

#[test]
fn clear_empties_active_keys_and_oracle() {
    let mut st = KeyState::of_single_key((0x80, 0x6e, vec![]));
    st.record_key_event(0x80, 0x6e, event(0x6e, 0xee, 0x11));
    st.clear();
    assert!(!st.previously_pressed(0x80, 0x6e));
    assert!(st.oracle.temporal_logs.is_empty());
}

#[test]
fn generate_reports_passes_through_the_oracle() {
    let mut st = KeyState::init();
    st.record_key_event(0x00, 0x20, event(0x20, 0x20, 0x04));
    let reports = st.generate_reports((vec![], vec![0x20]));
    assert_eq!(reports.len(), 1);
}
