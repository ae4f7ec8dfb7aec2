use a2pi::input::KbDriverInput;
use a2pi::kbmap::KeyMap;
use a2pi::kbmap::KeyboardMapEntrant;
use a2pi::kbmap::KBD_LEFT_ALT;
use a2pi::kbmap::KBD_LEFT_CONTROL;
use a2pi::kbmap::KBD_LEFT_GUI;
use a2pi::kbmap::KBD_LEFT_SHIFT;
use a2pi::kbmap::hid::CON_REWIND;
use a2pi::kbmap::hid::KBD_A;
use a2pi::kbmap::hid::KBD_N;
use a2pi::kbmap::hid::KBD_NON_US_BACKSLASH;

fn keyboard_codes(entrants: &[KeyboardMapEntrant]) -> Vec<u8> {
    entrants.iter().map(|e| e.key_code()).collect()
}

#[test]
fn combo_down_code_resolves_down() {
    // round trip, down side: the combo at layer 0x80, slot 0x6e
    let map = KeyMap::init();
    let (key, dir) = map.find_input(0x80, 0x6e).expect("combo is mapped");
    assert!(matches!(dir, KbDriverInput::KeyDown));
    assert_eq!(key.key, 0x6e);
    assert_eq!(key.action, 0xee);
    assert_eq!(keyboard_codes(&key.usb_hid), vec![KBD_LEFT_GUI, KBD_N]);
}

#[test]
fn combo_up_code_resolves_up_to_the_same_key() {
    // round trip, up side: 0xee masks back to the 0x6e slot
    let map = KeyMap::init();
    let (key, dir) = map.find_input(0x80, 0xee).expect("up code resolves");
    assert!(matches!(dir, KbDriverInput::KeyUp));
    assert_eq!(key.key, 0x6e);
    assert_eq!(key.action, 0xee);
    assert_eq!(keyboard_codes(&key.usb_hid), vec![KBD_LEFT_GUI, KBD_N]);
}

#[test]
fn bare_layer_slots_carry_their_modifiers() {
    let map = KeyMap::init();
    let (control, _) = map.find_input(0x01, 0x00).expect("control layer");
    assert_eq!(keyboard_codes(&control.usb_hid), vec![KBD_LEFT_CONTROL]);
    let (both, _) = map.find_input(0x05, 0x00).expect("control+shift layer");
    assert_eq!(keyboard_codes(&both.usb_hid), vec![KBD_LEFT_CONTROL, KBD_LEFT_SHIFT]);
    let (alt, _) = map.find_input(0x40, 0x00).expect("open apple layer");
    assert_eq!(keyboard_codes(&alt.usb_hid), vec![KBD_LEFT_ALT]);
}

#[test]
fn base_layer_maps_letters() {
    let map = KeyMap::init();
    let (a, dir) = map.find_input(0x00, 0x20).expect("the A key");
    assert!(matches!(dir, KbDriverInput::KeyDown));
    assert_eq!(keyboard_codes(&a.usb_hid), vec![KBD_A]);
    let (slot0, _) = map.find_input(0x00, 0x00).expect("slot zero of the base layer");
    assert_eq!(keyboard_codes(&slot0.usb_hid), vec![KBD_NON_US_BACKSLASH]);
}

#[test]
fn consumer_keys_carry_usage_ids() {
    let map = KeyMap::init();
    let (rewind, _) = map.find_input(0x80, 0x07).expect("rewind combo");
    assert_eq!(rewind.usb_hid.len(), 1);
    assert_eq!(rewind.usb_hid[0].usage_id(), CON_REWIND);
    assert!(rewind.usb_hid[0].is_consumer());
}

#[test]
fn misses_are_not_errors() {
    let map = KeyMap::init();
    // the reset layer owns a table with no entries
    assert!(map.find_input(0x02, 0x00).is_none());
    assert!(map.find_input(0x02, 0x20).is_none());
    // a layer with no table
    assert!(map.find_input(0x08, 0x00).is_none());
    // an unmapped slot in a defined layer
    assert!(map.find_input(0x00, 0x7F).is_none());
    assert!(map.find_input(0x80, 0x22).is_none());
}

#[test]
fn keycode_constants_match_the_hid_pages() {
    // the keycodes of the map are the usage ids of the USB HID pages
    let left_control: u8 = usbd_human_interface_device::page::Keyboard::LeftControl.into();
    let left_shift: u8 = usbd_human_interface_device::page::Keyboard::LeftShift.into();
    let left_alt: u8 = usbd_human_interface_device::page::Keyboard::LeftAlt.into();
    let left_gui: u8 = usbd_human_interface_device::page::Keyboard::LeftGUI.into();
    let n: u8 = usbd_human_interface_device::page::Keyboard::N.into();
    let a: u8 = usbd_human_interface_device::page::Keyboard::A.into();
    let rewind: u16 = usbd_human_interface_device::page::Consumer::Rewind.into();
    assert_eq!(KBD_LEFT_CONTROL, left_control);
    assert_eq!(KBD_LEFT_SHIFT, left_shift);
    assert_eq!(KBD_LEFT_ALT, left_alt);
    assert_eq!(KBD_LEFT_GUI, left_gui);
    assert_eq!(KBD_N, n);
    assert_eq!(KBD_A, a);
    assert_eq!(CON_REWIND, rewind);
}
