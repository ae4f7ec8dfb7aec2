//! The literal keyboard layout: the key definition table of every layer,
//! both as executable data and as the mathematical table the contracts of
//! the key map speak of.

use vstd::prelude::*;

use super::KBD_LEFT_ALT;
use super::KBD_LEFT_CONTROL;
use super::KBD_LEFT_GUI;
use super::KBD_LEFT_SHIFT;
use super::KBD_NO_EVENT;
use super::Key;
use super::KeyModel;
use super::KeyboardMapEntrant;
use super::NUM_LAYERS;
use super::NUM_SLOTS;
use super::key_model_opt;

verus! {

/// USB HID consumer-control usage id.
pub const CON_FAST_FORWARD: u16 = 0xb3;

/// USB HID consumer-control usage id.
pub const CON_REWIND: u16 = 0xb4;

/// USB HID consumer-control usage id.
pub const CON_PLAY_PAUSE: u16 = 0xcd;

/// USB HID consumer-control usage id.
pub const CON_MUTE: u16 = 0xe2;

/// USB HID consumer-control usage id.
pub const CON_VOLUME_INCREMENT: u16 = 0xe9;

/// USB HID consumer-control usage id.
pub const CON_VOLUME_DECREMENT: u16 = 0xea;

/// USB HID keyboard-page keycode.
pub const KBD_A: u8 = 0x4;

/// USB HID keyboard-page keycode.
pub const KBD_B: u8 = 0x5;

/// USB HID keyboard-page keycode.
pub const KBD_C: u8 = 0x6;

/// USB HID keyboard-page keycode.
pub const KBD_D: u8 = 0x7;

/// USB HID keyboard-page keycode.
pub const KBD_E: u8 = 0x8;

/// USB HID keyboard-page keycode.
pub const KBD_F: u8 = 0x9;

/// USB HID keyboard-page keycode.
pub const KBD_G: u8 = 0xa;

/// USB HID keyboard-page keycode.
pub const KBD_H: u8 = 0xb;

/// USB HID keyboard-page keycode.
pub const KBD_I: u8 = 0xc;

/// USB HID keyboard-page keycode.
pub const KBD_J: u8 = 0xd;

/// USB HID keyboard-page keycode.
pub const KBD_K: u8 = 0xe;

/// USB HID keyboard-page keycode.
pub const KBD_L: u8 = 0xf;

/// USB HID keyboard-page keycode.
pub const KBD_M: u8 = 0x10;

/// USB HID keyboard-page keycode.
pub const KBD_N: u8 = 0x11;

/// USB HID keyboard-page keycode.
pub const KBD_O: u8 = 0x12;

/// USB HID keyboard-page keycode.
pub const KBD_P: u8 = 0x13;

/// USB HID keyboard-page keycode.
pub const KBD_Q: u8 = 0x14;

/// USB HID keyboard-page keycode.
pub const KBD_R: u8 = 0x15;

/// USB HID keyboard-page keycode.
pub const KBD_S: u8 = 0x16;

/// USB HID keyboard-page keycode.
pub const KBD_T: u8 = 0x17;

/// USB HID keyboard-page keycode.
pub const KBD_U: u8 = 0x18;

/// USB HID keyboard-page keycode.
pub const KBD_V: u8 = 0x19;

/// USB HID keyboard-page keycode.
pub const KBD_W: u8 = 0x1a;

/// USB HID keyboard-page keycode.
pub const KBD_X: u8 = 0x1b;

/// USB HID keyboard-page keycode.
pub const KBD_Y: u8 = 0x1c;

/// USB HID keyboard-page keycode.
pub const KBD_Z: u8 = 0x1d;

/// USB HID keyboard-page keycode.
pub const KBD_KEYBOARD1: u8 = 0x1e;

/// USB HID keyboard-page keycode.
pub const KBD_KEYBOARD2: u8 = 0x1f;

/// USB HID keyboard-page keycode.
pub const KBD_KEYBOARD3: u8 = 0x20;

/// USB HID keyboard-page keycode.
pub const KBD_KEYBOARD4: u8 = 0x21;

/// USB HID keyboard-page keycode.
pub const KBD_KEYBOARD5: u8 = 0x22;

/// USB HID keyboard-page keycode.
pub const KBD_KEYBOARD6: u8 = 0x23;

/// USB HID keyboard-page keycode.
pub const KBD_KEYBOARD7: u8 = 0x24;

/// USB HID keyboard-page keycode.
pub const KBD_KEYBOARD8: u8 = 0x25;

/// USB HID keyboard-page keycode.
pub const KBD_KEYBOARD9: u8 = 0x26;

/// USB HID keyboard-page keycode.
pub const KBD_KEYBOARD0: u8 = 0x27;

/// USB HID keyboard-page keycode.
pub const KBD_RETURN_ENTER: u8 = 0x28;

/// USB HID keyboard-page keycode.
pub const KBD_ESCAPE: u8 = 0x29;

/// USB HID keyboard-page keycode.
pub const KBD_DELETE_BACKSPACE: u8 = 0x2a;

/// USB HID keyboard-page keycode.
pub const KBD_TAB: u8 = 0x2b;

/// USB HID keyboard-page keycode.
pub const KBD_SPACE: u8 = 0x2c;

/// USB HID keyboard-page keycode.
pub const KBD_MINUS: u8 = 0x2d;

/// USB HID keyboard-page keycode.
pub const KBD_EQUAL: u8 = 0x2e;

/// USB HID keyboard-page keycode.
pub const KBD_RIGHT_BRACE: u8 = 0x30;

/// USB HID keyboard-page keycode.
pub const KBD_BACKSLASH: u8 = 0x31;

/// USB HID keyboard-page keycode.
pub const KBD_GRAVE: u8 = 0x35;

/// USB HID keyboard-page keycode.
pub const KBD_COMMA: u8 = 0x36;

/// USB HID keyboard-page keycode.
pub const KBD_DOT: u8 = 0x37;

/// USB HID keyboard-page keycode.
pub const KBD_FORWARD_SLASH: u8 = 0x38;

/// USB HID keyboard-page keycode.
pub const KBD_F1: u8 = 0x3a;

/// USB HID keyboard-page keycode.
pub const KBD_F2: u8 = 0x3b;

/// USB HID keyboard-page keycode.
pub const KBD_F3: u8 = 0x3c;

/// USB HID keyboard-page keycode.
pub const KBD_F4: u8 = 0x3d;

/// USB HID keyboard-page keycode.
pub const KBD_F5: u8 = 0x3e;

/// USB HID keyboard-page keycode.
pub const KBD_F6: u8 = 0x3f;

/// USB HID keyboard-page keycode.
pub const KBD_RIGHT_ARROW: u8 = 0x4f;

/// USB HID keyboard-page keycode.
pub const KBD_LEFT_ARROW: u8 = 0x50;

/// USB HID keyboard-page keycode.
pub const KBD_DOWN_ARROW: u8 = 0x51;

/// USB HID keyboard-page keycode.
pub const KBD_UP_ARROW: u8 = 0x52;

/// USB HID keyboard-page keycode.
pub const KBD_NON_US_BACKSLASH: u8 = 0x64;

/// The table of layer 0x0: the key definition of each slot.
pub open spec fn layer_00_entry(slot: u8) -> Option<KeyModel> {
    if slot == 0x0 {
        Some(KeyModel { down: 0x0, up: 0x0, entrants: seq![KeyboardMapEntrant::Keyboard(KBD_NON_US_BACKSLASH)] })
    } else if slot == 0x1 {
        Some(KeyModel { down: 0x1, up: 0x1, entrants: seq![KeyboardMapEntrant::Keyboard(KBD_KEYBOARD1)] })
    } else if slot == 0x2 {
        Some(KeyModel { down: 0x2, up: 0x2, entrants: seq![KeyboardMapEntrant::Keyboard(KBD_KEYBOARD2)] })
    } else if slot == 0x3 {
        Some(KeyModel { down: 0x3, up: 0x3, entrants: seq![KeyboardMapEntrant::Keyboard(KBD_KEYBOARD3)] })
    } else if slot == 0x4 {
        Some(KeyModel { down: 0x4, up: 0x4, entrants: seq![KeyboardMapEntrant::Keyboard(KBD_KEYBOARD4)] })
    } else if slot == 0x6 {
        Some(KeyModel { down: 0x6, up: 0x6, entrants: seq![KeyboardMapEntrant::Keyboard(KBD_KEYBOARD5)] })
    } else if slot == 0x5 {
        Some(KeyModel { down: 0x5, up: 0x5, entrants: seq![KeyboardMapEntrant::Keyboard(KBD_KEYBOARD6)] })
    } else if slot == 0x7 {
        Some(KeyModel { down: 0x7, up: 0x7, entrants: seq![KeyboardMapEntrant::Keyboard(KBD_KEYBOARD7)] })
    } else if slot == 0x8 {
        Some(KeyModel { down: 0x8, up: 0x8, entrants: seq![KeyboardMapEntrant::Keyboard(KBD_KEYBOARD8)] })
    } else if slot == 0x9 {
        Some(KeyModel { down: 0x9, up: 0x9, entrants: seq![KeyboardMapEntrant::Keyboard(KBD_KEYBOARD9)] })
    } else if slot == 0x48 {
        Some(KeyModel { down: 0x48, up: 0x48, entrants: seq![KeyboardMapEntrant::Keyboard(KBD_KEYBOARD0)] })
    } else if slot == 0x49 {
        Some(KeyModel { down: 0x49, up: 0x49, entrants: seq![KeyboardMapEntrant::Keyboard(KBD_MINUS)] })
    } else if slot == 0x47 {
        Some(KeyModel { down: 0x47, up: 0x47, entrants: seq![KeyboardMapEntrant::Keyboard(KBD_EQUAL)] })
    } else if slot == 0x76 {
        Some(KeyModel { down: 0x76, up: 0x76, entrants: seq![KeyboardMapEntrant::Keyboard(KBD_DELETE_BACKSPACE)] })
    } else if slot == 0x10 {
        Some(KeyModel { down: 0x10, up: 0x10, entrants: seq![KeyboardMapEntrant::Keyboard(KBD_ESCAPE)] })
    } else if slot == 0x11 {
        Some(KeyModel { down: 0x11, up: 0x11, entrants: seq![KeyboardMapEntrant::Keyboard(KBD_Q)] })
    } else if slot == 0x12 {
        Some(KeyModel { down: 0x12, up: 0x12, entrants: seq![KeyboardMapEntrant::Keyboard(KBD_W)] })
    } else if slot == 0x13 {
        Some(KeyModel { down: 0x13, up: 0x13, entrants: seq![KeyboardMapEntrant::Keyboard(KBD_E)] })
    } else if slot == 0x14 {
        Some(KeyModel { down: 0x14, up: 0x14, entrants: seq![KeyboardMapEntrant::Keyboard(KBD_R)] })
    } else if slot == 0x16 {
        Some(KeyModel { down: 0x16, up: 0x16, entrants: seq![KeyboardMapEntrant::Keyboard(KBD_T)] })
    } else if slot == 0x15 {
        Some(KeyModel { down: 0x15, up: 0x15, entrants: seq![KeyboardMapEntrant::Keyboard(KBD_Y)] })
    } else if slot == 0x17 {
        Some(KeyModel { down: 0x17, up: 0x17, entrants: seq![KeyboardMapEntrant::Keyboard(KBD_U)] })
    } else if slot == 0x18 {
        Some(KeyModel { down: 0x18, up: 0x18, entrants: seq![KeyboardMapEntrant::Keyboard(KBD_I)] })
    } else if slot == 0x19 {
        Some(KeyModel { down: 0x19, up: 0x19, entrants: seq![KeyboardMapEntrant::Keyboard(KBD_O)] })
    } else if slot == 0x57 {
        Some(KeyModel { down: 0x57, up: 0x57, entrants: seq![KeyboardMapEntrant::Keyboard(KBD_P)] })
    } else if slot == 0x58 {
        Some(KeyModel { down: 0x58, up: 0x58, entrants: seq![KeyboardMapEntrant::Keyboard(KBD_TAB)] })
    } else if slot == 0x59 {
        Some(KeyModel { down: 0x59, up: 0x59, entrants: seq![KeyboardMapEntrant::Keyboard(KBD_RIGHT_BRACE)] })
    } else if slot == 0x20 {
        Some(KeyModel { down: 0x20, up: 0x20, entrants: seq![KeyboardMapEntrant::Keyboard(KBD_A)] })
    } else if slot == 0x22 {
        Some(KeyModel { down: 0x22, up: 0x22, entrants: seq![KeyboardMapEntrant::Keyboard(KBD_S)] })
    } else if slot == 0x21 {
        Some(KeyModel { down: 0x21, up: 0x21, entrants: seq![KeyboardMapEntrant::Keyboard(KBD_D)] })
    } else if slot == 0x24 {
        Some(KeyModel { down: 0x24, up: 0x24, entrants: seq![KeyboardMapEntrant::Keyboard(KBD_F)] })
    } else if slot == 0x25 {
        Some(KeyModel { down: 0x25, up: 0x25, entrants: seq![KeyboardMapEntrant::Keyboard(KBD_G)] })
    } else if slot == 0x23 {
        Some(KeyModel { down: 0x23, up: 0x23, entrants: seq![KeyboardMapEntrant::Keyboard(KBD_H)] })
    } else if slot == 0x26 {
        Some(KeyModel { down: 0x26, up: 0x26, entrants: seq![KeyboardMapEntrant::Keyboard(KBD_J)] })
    } else if slot == 0x27 {
        Some(KeyModel { down: 0x27, up: 0x27, entrants: seq![KeyboardMapEntrant::Keyboard(KBD_K)] })
    } else if slot == 0x29 {
        Some(KeyModel { down: 0x29, up: 0x29, entrants: seq![KeyboardMapEntrant::Keyboard(KBD_L)] })
    } else if slot == 0x28 {
        Some(KeyModel { down: 0x28, up: 0x28, entrants: seq![KeyboardMapEntrant::Keyboard(KBD_NO_EVENT)] })
    } else if slot == 0x69 {
        Some(KeyModel { down: 0x69, up: 0x69, entrants: seq![KeyboardMapEntrant::Keyboard(KBD_NO_EVENT)] })
    } else if slot == 0x46 {
        Some(KeyModel { down: 0x46, up: 0x46, entrants: seq![KeyboardMapEntrant::Keyboard(KBD_BACKSLASH)] })
    } else if slot == 0x56 {
        Some(KeyModel { down: 0x56, up: 0x56, entrants: seq![KeyboardMapEntrant::Keyboard(KBD_GRAVE)] })
    } else if slot == 0x30 {
        Some(KeyModel { down: 0x30, up: 0x30, entrants: seq![KeyboardMapEntrant::Keyboard(KBD_Z)] })
    } else if slot == 0x31 {
        Some(KeyModel { down: 0x31, up: 0x31, entrants: seq![KeyboardMapEntrant::Keyboard(KBD_X)] })
    } else if slot == 0x32 {
        Some(KeyModel { down: 0x32, up: 0x32, entrants: seq![KeyboardMapEntrant::Keyboard(KBD_C)] })
    } else if slot == 0x33 {
        Some(KeyModel { down: 0x33, up: 0x33, entrants: seq![KeyboardMapEntrant::Keyboard(KBD_V)] })
    } else if slot == 0x34 {
        Some(KeyModel { down: 0x34, up: 0x34, entrants: seq![KeyboardMapEntrant::Keyboard(KBD_B)] })
    } else if slot == 0x35 {
        Some(KeyModel { down: 0x35, up: 0x35, entrants: seq![KeyboardMapEntrant::Keyboard(KBD_N)] })
    } else if slot == 0x36 {
        Some(KeyModel { down: 0x36, up: 0x36, entrants: seq![KeyboardMapEntrant::Keyboard(KBD_M)] })
    } else if slot == 0x37 {
        Some(KeyModel { down: 0x37, up: 0x37, entrants: seq![KeyboardMapEntrant::Keyboard(KBD_COMMA)] })
    } else if slot == 0x38 {
        Some(KeyModel { down: 0x38, up: 0x38, entrants: seq![KeyboardMapEntrant::Keyboard(KBD_DOT)] })
    } else if slot == 0x39 {
        Some(KeyModel { down: 0x39, up: 0x39, entrants: seq![KeyboardMapEntrant::Keyboard(KBD_FORWARD_SLASH)] })
    } else if slot == 0x66 {
        Some(KeyModel { down: 0x66, up: 0x66, entrants: seq![KeyboardMapEntrant::Keyboard(KBD_RETURN_ENTER)] })
    } else if slot == 0x68 {
        Some(KeyModel { down: 0x68, up: 0x68, entrants: seq![KeyboardMapEntrant::Keyboard(KBD_SPACE)] })
    } else {
        None
    }
}

/// The table of layer 0x1: the key definition of each slot.
pub open spec fn layer_01_entry(slot: u8) -> Option<KeyModel> {
    if slot == 0x0 {
        Some(KeyModel { down: 0x0, up: 0x0, entrants: seq![KeyboardMapEntrant::Keyboard(KBD_LEFT_CONTROL)] })
    } else {
        None
    }
}

/// The table of layer 0x2: the key definition of each slot.
pub open spec fn layer_02_entry(slot: u8) -> Option<KeyModel> {
    None
}

/// The table of layer 0x3: the key definition of each slot.
pub open spec fn layer_03_entry(slot: u8) -> Option<KeyModel> {
    if slot == 0x0 {
        Some(KeyModel { down: 0x0, up: 0x0, entrants: seq![KeyboardMapEntrant::Keyboard(KBD_TAB)] })
    } else {
        None
    }
}

/// The table of layer 0x4: the key definition of each slot.
pub open spec fn layer_04_entry(slot: u8) -> Option<KeyModel> {
    if slot == 0x0 {
        Some(KeyModel { down: 0x0, up: 0x0, entrants: seq![KeyboardMapEntrant::Keyboard(KBD_LEFT_SHIFT)] })
    } else {
        None
    }
}

/// The table of layer 0x5: the key definition of each slot.
pub open spec fn layer_05_entry(slot: u8) -> Option<KeyModel> {
    if slot == 0x0 {
        Some(KeyModel { down: 0x0, up: 0x0, entrants: seq![KeyboardMapEntrant::Keyboard(KBD_LEFT_CONTROL), KeyboardMapEntrant::Keyboard(KBD_LEFT_SHIFT)] })
    } else {
        None
    }
}

/// The table of layer 0x7: the key definition of each slot.
pub open spec fn layer_07_entry(slot: u8) -> Option<KeyModel> {
    if slot == 0x0 {
        Some(KeyModel { down: 0x0, up: 0x0, entrants: seq![KeyboardMapEntrant::Keyboard(KBD_LEFT_CONTROL), KeyboardMapEntrant::Keyboard(KBD_LEFT_SHIFT), KeyboardMapEntrant::Keyboard(KBD_TAB)] })
    } else {
        None
    }
}

/// The table of layer 0x40: the key definition of each slot.
pub open spec fn layer_40_entry(slot: u8) -> Option<KeyModel> {
    if slot == 0x0 {
        Some(KeyModel { down: 0x0, up: 0x0, entrants: seq![KeyboardMapEntrant::Keyboard(KBD_LEFT_ALT)] })
    } else if slot == 0x20 {
        Some(KeyModel { down: 0x20, up: 0x20, entrants: seq![KeyboardMapEntrant::Keyboard(KBD_LEFT_GUI), KeyboardMapEntrant::Keyboard(KBD_A)] })
    } else if slot == 0x32 {
        Some(KeyModel { down: 0x32, up: 0x32, entrants: seq![KeyboardMapEntrant::Keyboard(KBD_LEFT_GUI), KeyboardMapEntrant::Keyboard(KBD_C)] })
    } else if slot == 0x33 {
        Some(KeyModel { down: 0x33, up: 0x33, entrants: seq![KeyboardMapEntrant::Keyboard(KBD_LEFT_GUI), KeyboardMapEntrant::Keyboard(KBD_V)] })
    } else if slot == 0x12 {
        Some(KeyModel { down: 0x12, up: 0x12, entrants: seq![KeyboardMapEntrant::Keyboard(KBD_LEFT_GUI), KeyboardMapEntrant::Keyboard(KBD_W)] })
    } else if slot == 0x14 {
        Some(KeyModel { down: 0x14, up: 0x14, entrants: seq![KeyboardMapEntrant::Keyboard(KBD_LEFT_GUI), KeyboardMapEntrant::Keyboard(KBD_R)] })
    } else if slot == 0x16 {
        Some(KeyModel { down: 0x16, up: 0x16, entrants: seq![KeyboardMapEntrant::Keyboard(KBD_LEFT_GUI), KeyboardMapEntrant::Keyboard(KBD_T)] })
    } else if slot == 0x31 {
        Some(KeyModel { down: 0x31, up: 0x31, entrants: seq![KeyboardMapEntrant::Keyboard(KBD_LEFT_GUI), KeyboardMapEntrant::Keyboard(KBD_X)] })
    } else if slot == 0x29 {
        Some(KeyModel { down: 0x29, up: 0x29, entrants: seq![KeyboardMapEntrant::Keyboard(KBD_LEFT_GUI), KeyboardMapEntrant::Keyboard(KBD_L)] })
    } else if slot == 0x35 {
        Some(KeyModel { down: 0x35, up: 0x35, entrants: seq![KeyboardMapEntrant::Keyboard(KBD_LEFT_GUI), KeyboardMapEntrant::Keyboard(KBD_N)] })
    } else {
        None
    }
}

/// The table of layer 0x44: the key definition of each slot.
pub open spec fn layer_44_entry(slot: u8) -> Option<KeyModel> {
    if slot == 0x0 {
        Some(KeyModel { down: 0x0, up: 0x0, entrants: seq![KeyboardMapEntrant::Keyboard(KBD_LEFT_ALT), KeyboardMapEntrant::Keyboard(KBD_LEFT_SHIFT)] })
    } else if slot == 0x29 {
        Some(KeyModel { down: 0x29, up: 0x29, entrants: seq![KeyboardMapEntrant::Keyboard(KBD_LEFT_ALT), KeyboardMapEntrant::Keyboard(KBD_L)] })
    } else if slot == 0x35 {
        Some(KeyModel { down: 0x35, up: 0x35, entrants: seq![KeyboardMapEntrant::Keyboard(KBD_LEFT_ALT), KeyboardMapEntrant::Keyboard(KBD_N)] })
    } else if slot == 0x1 {
        Some(KeyModel { down: 0x1, up: 0x1, entrants: seq![KeyboardMapEntrant::Keyboard(KBD_LEFT_GUI), KeyboardMapEntrant::Keyboard(KBD_KEYBOARD1)] })
    } else if slot == 0x2 {
        Some(KeyModel { down: 0x2, up: 0x2, entrants: seq![KeyboardMapEntrant::Keyboard(KBD_LEFT_GUI), KeyboardMapEntrant::Keyboard(KBD_KEYBOARD2)] })
    } else if slot == 0x3 {
        Some(KeyModel { down: 0x3, up: 0x3, entrants: seq![KeyboardMapEntrant::Keyboard(KBD_LEFT_GUI), KeyboardMapEntrant::Keyboard(KBD_KEYBOARD3)] })
    } else if slot == 0x4 {
        Some(KeyModel { down: 0x4, up: 0x4, entrants: seq![KeyboardMapEntrant::Keyboard(KBD_LEFT_GUI), KeyboardMapEntrant::Keyboard(KBD_KEYBOARD4)] })
    } else if slot == 0x6 {
        Some(KeyModel { down: 0x6, up: 0x6, entrants: seq![KeyboardMapEntrant::Keyboard(KBD_LEFT_GUI), KeyboardMapEntrant::Keyboard(KBD_KEYBOARD5)] })
    } else if slot == 0x5 {
        Some(KeyModel { down: 0x5, up: 0x5, entrants: seq![KeyboardMapEntrant::Keyboard(KBD_LEFT_GUI), KeyboardMapEntrant::Keyboard(KBD_KEYBOARD6)] })
    } else if slot == 0x7 {
        Some(KeyModel { down: 0x7, up: 0x7, entrants: seq![KeyboardMapEntrant::Keyboard(KBD_LEFT_ALT), KeyboardMapEntrant::Keyboard(KBD_LEFT_SHIFT), KeyboardMapEntrant::Keyboard(KBD_KEYBOARD7)] })
    } else if slot == 0x8 {
        Some(KeyModel { down: 0x8, up: 0x8, entrants: seq![KeyboardMapEntrant::Keyboard(KBD_LEFT_GUI), KeyboardMapEntrant::Keyboard(KBD_KEYBOARD8)] })
    } else if slot == 0x9 {
        Some(KeyModel { down: 0x9, up: 0x9, entrants: seq![KeyboardMapEntrant::Keyboard(KBD_LEFT_GUI), KeyboardMapEntrant::Keyboard(KBD_KEYBOARD9)] })
    } else if slot == 0x48 {
        Some(KeyModel { down: 0x48, up: 0x48, entrants: seq![KeyboardMapEntrant::Keyboard(KBD_LEFT_GUI), KeyboardMapEntrant::Keyboard(KBD_KEYBOARD0)] })
    } else {
        None
    }
}

/// The table of layer 0x80: the key definition of each slot.
pub open spec fn layer_80_entry(slot: u8) -> Option<KeyModel> {
    if slot == 0x0 {
        Some(KeyModel { down: 0x0, up: 0x0, entrants: seq![KeyboardMapEntrant::Keyboard(KBD_LEFT_GUI)] })
    } else if slot == 0x6e {
        Some(KeyModel { down: 0x6e, up: 0xee, entrants: seq![KeyboardMapEntrant::Keyboard(KBD_LEFT_GUI), KeyboardMapEntrant::Keyboard(KBD_N)] })
    } else if slot == 0x23 {
        Some(KeyModel { down: 0x23, up: 0x23, entrants: seq![KeyboardMapEntrant::Keyboard(KBD_LEFT_ARROW)] })
    } else if slot == 0x26 {
        Some(KeyModel { down: 0x26, up: 0x26, entrants: seq![KeyboardMapEntrant::Keyboard(KBD_DOWN_ARROW)] })
    } else if slot == 0x27 {
        Some(KeyModel { down: 0x27, up: 0x27, entrants: seq![KeyboardMapEntrant::Keyboard(KBD_UP_ARROW)] })
    } else if slot == 0x29 {
        Some(KeyModel { down: 0x29, up: 0x29, entrants: seq![KeyboardMapEntrant::Keyboard(KBD_RIGHT_ARROW)] })
    } else if slot == 0x1 {
        Some(KeyModel { down: 0x1, up: 0x1, entrants: seq![KeyboardMapEntrant::Keyboard(KBD_F1)] })
    } else if slot == 0x2 {
        Some(KeyModel { down: 0x2, up: 0x2, entrants: seq![KeyboardMapEntrant::Keyboard(KBD_F2)] })
    } else if slot == 0x3 {
        Some(KeyModel { down: 0x3, up: 0x3, entrants: seq![KeyboardMapEntrant::Keyboard(KBD_F3)] })
    } else if slot == 0x4 {
        Some(KeyModel { down: 0x4, up: 0x4, entrants: seq![KeyboardMapEntrant::Keyboard(KBD_F4)] })
    } else if slot == 0x6 {
        Some(KeyModel { down: 0x6, up: 0x6, entrants: seq![KeyboardMapEntrant::Keyboard(KBD_F5)] })
    } else if slot == 0x5 {
        Some(KeyModel { down: 0x5, up: 0x5, entrants: seq![KeyboardMapEntrant::Keyboard(KBD_F6)] })
    } else if slot == 0x7 {
        Some(KeyModel { down: 0x7, up: 0x7, entrants: seq![KeyboardMapEntrant::Consumer(CON_REWIND)] })
    } else if slot == 0x8 {
        Some(KeyModel { down: 0x8, up: 0x8, entrants: seq![KeyboardMapEntrant::Consumer(CON_PLAY_PAUSE)] })
    } else if slot == 0x9 {
        Some(KeyModel { down: 0x9, up: 0x9, entrants: seq![KeyboardMapEntrant::Consumer(CON_FAST_FORWARD)] })
    } else if slot == 0x48 {
        Some(KeyModel { down: 0x48, up: 0x48, entrants: seq![KeyboardMapEntrant::Consumer(CON_MUTE)] })
    } else if slot == 0x49 {
        Some(KeyModel { down: 0x49, up: 0x49, entrants: seq![KeyboardMapEntrant::Consumer(CON_VOLUME_DECREMENT)] })
    } else if slot == 0x47 {
        Some(KeyModel { down: 0x47, up: 0x47, entrants: seq![KeyboardMapEntrant::Consumer(CON_VOLUME_INCREMENT)] })
    } else {
        None
    }
}

/// The table of layer 0x85: the key definition of each slot.
pub open spec fn layer_85_entry(slot: u8) -> Option<KeyModel> {
    if slot == 0x0 {
        Some(KeyModel { down: 0x0, up: 0x0, entrants: seq![KeyboardMapEntrant::Keyboard(KBD_NO_EVENT)] })
    } else {
        None
    }
}

/// The table of layer 0xc0: the key definition of each slot.
pub open spec fn layer_c0_entry(slot: u8) -> Option<KeyModel> {
    if slot == 0x0 {
        Some(KeyModel { down: 0x0, up: 0x0, entrants: seq![KeyboardMapEntrant::Keyboard(KBD_NO_EVENT)] })
    } else if slot == 0x23 {
        Some(KeyModel { down: 0x23, up: 0x23, entrants: seq![KeyboardMapEntrant::Keyboard(KBD_LEFT_CONTROL), KeyboardMapEntrant::Keyboard(KBD_LEFT_ARROW)] })
    } else if slot == 0x26 {
        Some(KeyModel { down: 0x26, up: 0x26, entrants: seq![KeyboardMapEntrant::Keyboard(KBD_LEFT_CONTROL), KeyboardMapEntrant::Keyboard(KBD_DOWN_ARROW)] })
    } else if slot == 0x27 {
        Some(KeyModel { down: 0x27, up: 0x27, entrants: seq![KeyboardMapEntrant::Keyboard(KBD_LEFT_CONTROL), KeyboardMapEntrant::Keyboard(KBD_UP_ARROW)] })
    } else if slot == 0x29 {
        Some(KeyModel { down: 0x29, up: 0x29, entrants: seq![KeyboardMapEntrant::Keyboard(KBD_LEFT_CONTROL), KeyboardMapEntrant::Keyboard(KBD_RIGHT_ARROW)] })
    } else if slot == 0x18 {
        Some(KeyModel { down: 0x18, up: 0x18, entrants: seq![KeyboardMapEntrant::Keyboard(KBD_LEFT_ALT), KeyboardMapEntrant::Keyboard(KBD_LEFT_GUI), KeyboardMapEntrant::Keyboard(KBD_I)] })
    } else {
        None
    }
}

/// The table of layer 0xc4: the key definition of each slot.
pub open spec fn layer_c4_entry(slot: u8) -> Option<KeyModel> {
    if slot == 0x0 {
        Some(KeyModel { down: 0x0, up: 0x0, entrants: seq![KeyboardMapEntrant::Keyboard(KBD_NO_EVENT)] })
    } else {
        None
    }
}

/// Every entry of the literal table is placed well: it sits in the slot of
/// its own down code, the down code has no high bit, and the up code equals
/// the down code or differs from it exactly by the high bit.
pub proof fn lemma_table_well_placed(layer: u8, slot: u8)
    ensures
        spec_table_entry(layer, slot) matches Some(m) ==> super::entry_well_placed(
            slot as int,
            m,
        ),
{
}

/// True of the layer bytes that own a table.
pub open spec fn spec_layer_defined(layer: u8) -> bool {
    layer == 0x0 || layer == 0x1 || layer == 0x2 || layer == 0x3 || layer == 0x4 || layer == 0x5 || layer == 0x7 || layer == 0x40 || layer == 0x44 || layer == 0x80 || layer == 0x85 || layer == 0xc0 || layer == 0xc4
}

/// The whole key map as a mathematical table: the definition at
/// `(layer, slot)`, or `None` where the layout places no key.
pub open spec fn spec_table_entry(layer: u8, slot: u8) -> Option<KeyModel> {
    if layer == 0x0 {
        layer_00_entry(slot)
    } else if layer == 0x1 {
        layer_01_entry(slot)
    } else if layer == 0x2 {
        layer_02_entry(slot)
    } else if layer == 0x3 {
        layer_03_entry(slot)
    } else if layer == 0x4 {
        layer_04_entry(slot)
    } else if layer == 0x5 {
        layer_05_entry(slot)
    } else if layer == 0x7 {
        layer_07_entry(slot)
    } else if layer == 0x40 {
        layer_40_entry(slot)
    } else if layer == 0x44 {
        layer_44_entry(slot)
    } else if layer == 0x80 {
        layer_80_entry(slot)
    } else if layer == 0x85 {
        layer_85_entry(slot)
    } else if layer == 0xc0 {
        layer_c0_entry(slot)
    } else if layer == 0xc4 {
        layer_c4_entry(slot)
    } else {
        None
    }
}
fn empty_slots() -> (r: Vec<Option<Key>>)
    ensures
        r@.len() == NUM_SLOTS,
        forall|s: int| 0 <= s < NUM_SLOTS ==> r@[s] is None,
{
    let mut t: Vec<Option<Key>> = Vec::new();
    while t.len() < NUM_SLOTS
        invariant
            t@.len() <= NUM_SLOTS,
            forall|s: int| 0 <= s < t@.len() ==> t@[s] is None,
        decreases NUM_SLOTS - t.len(),
    {
        t.push(None);
    }
    t
}

fn ent1(a: KeyboardMapEntrant) -> (r: Vec<KeyboardMapEntrant>)
    ensures
        r@ =~= seq![a],
{
    let mut v: Vec<KeyboardMapEntrant> = Vec::new();
    v.push(a);
    v
}

fn ent2(a: KeyboardMapEntrant, b: KeyboardMapEntrant) -> (r: Vec<KeyboardMapEntrant>)
    ensures
        r@ =~= seq![a, b],
{
    let mut v: Vec<KeyboardMapEntrant> = Vec::new();
    v.push(a);
    v.push(b);
    v
}

fn ent3(a: KeyboardMapEntrant, b: KeyboardMapEntrant, c: KeyboardMapEntrant) -> (r: Vec<
    KeyboardMapEntrant,
>)
    ensures
        r@ =~= seq![a, b, c],
{
    let mut v: Vec<KeyboardMapEntrant> = Vec::new();
    v.push(a);
    v.push(b);
    v.push(c);
    v
}

fn build_layer_00() -> (r: Vec<Option<Key>>)
    ensures
        r@.len() == NUM_SLOTS,
        forall|s: int| 0 <= s < NUM_SLOTS ==> key_model_opt(#[trigger] r@[s]) == layer_00_entry(s as u8),
{
    let mut t = empty_slots();
    t.set(0x0, Some(Key::define(0x0, 0x0, ent1(KeyboardMapEntrant::Keyboard(KBD_NON_US_BACKSLASH)))));
    t.set(0x1, Some(Key::define(0x1, 0x1, ent1(KeyboardMapEntrant::Keyboard(KBD_KEYBOARD1)))));
    t.set(0x2, Some(Key::define(0x2, 0x2, ent1(KeyboardMapEntrant::Keyboard(KBD_KEYBOARD2)))));
    t.set(0x3, Some(Key::define(0x3, 0x3, ent1(KeyboardMapEntrant::Keyboard(KBD_KEYBOARD3)))));
    t.set(0x4, Some(Key::define(0x4, 0x4, ent1(KeyboardMapEntrant::Keyboard(KBD_KEYBOARD4)))));
    t.set(0x6, Some(Key::define(0x6, 0x6, ent1(KeyboardMapEntrant::Keyboard(KBD_KEYBOARD5)))));
    t.set(0x5, Some(Key::define(0x5, 0x5, ent1(KeyboardMapEntrant::Keyboard(KBD_KEYBOARD6)))));
    t.set(0x7, Some(Key::define(0x7, 0x7, ent1(KeyboardMapEntrant::Keyboard(KBD_KEYBOARD7)))));
    t.set(0x8, Some(Key::define(0x8, 0x8, ent1(KeyboardMapEntrant::Keyboard(KBD_KEYBOARD8)))));
    t.set(0x9, Some(Key::define(0x9, 0x9, ent1(KeyboardMapEntrant::Keyboard(KBD_KEYBOARD9)))));
    t.set(0x48, Some(Key::define(0x48, 0x48, ent1(KeyboardMapEntrant::Keyboard(KBD_KEYBOARD0)))));
    t.set(0x49, Some(Key::define(0x49, 0x49, ent1(KeyboardMapEntrant::Keyboard(KBD_MINUS)))));
    t.set(0x47, Some(Key::define(0x47, 0x47, ent1(KeyboardMapEntrant::Keyboard(KBD_EQUAL)))));
    t.set(0x76, Some(Key::define(0x76, 0x76, ent1(KeyboardMapEntrant::Keyboard(KBD_DELETE_BACKSPACE)))));
    t.set(0x10, Some(Key::define(0x10, 0x10, ent1(KeyboardMapEntrant::Keyboard(KBD_ESCAPE)))));
    t.set(0x11, Some(Key::define(0x11, 0x11, ent1(KeyboardMapEntrant::Keyboard(KBD_Q)))));
    t.set(0x12, Some(Key::define(0x12, 0x12, ent1(KeyboardMapEntrant::Keyboard(KBD_W)))));
    t.set(0x13, Some(Key::define(0x13, 0x13, ent1(KeyboardMapEntrant::Keyboard(KBD_E)))));
    t.set(0x14, Some(Key::define(0x14, 0x14, ent1(KeyboardMapEntrant::Keyboard(KBD_R)))));
    t.set(0x16, Some(Key::define(0x16, 0x16, ent1(KeyboardMapEntrant::Keyboard(KBD_T)))));
    t.set(0x15, Some(Key::define(0x15, 0x15, ent1(KeyboardMapEntrant::Keyboard(KBD_Y)))));
    t.set(0x17, Some(Key::define(0x17, 0x17, ent1(KeyboardMapEntrant::Keyboard(KBD_U)))));
    t.set(0x18, Some(Key::define(0x18, 0x18, ent1(KeyboardMapEntrant::Keyboard(KBD_I)))));
    t.set(0x19, Some(Key::define(0x19, 0x19, ent1(KeyboardMapEntrant::Keyboard(KBD_O)))));
    t.set(0x57, Some(Key::define(0x57, 0x57, ent1(KeyboardMapEntrant::Keyboard(KBD_P)))));
    t.set(0x58, Some(Key::define(0x58, 0x58, ent1(KeyboardMapEntrant::Keyboard(KBD_TAB)))));
    t.set(0x59, Some(Key::define(0x59, 0x59, ent1(KeyboardMapEntrant::Keyboard(KBD_RIGHT_BRACE)))));
    t.set(0x20, Some(Key::define(0x20, 0x20, ent1(KeyboardMapEntrant::Keyboard(KBD_A)))));
    t.set(0x22, Some(Key::define(0x22, 0x22, ent1(KeyboardMapEntrant::Keyboard(KBD_S)))));
    t.set(0x21, Some(Key::define(0x21, 0x21, ent1(KeyboardMapEntrant::Keyboard(KBD_D)))));
    t.set(0x24, Some(Key::define(0x24, 0x24, ent1(KeyboardMapEntrant::Keyboard(KBD_F)))));
    t.set(0x25, Some(Key::define(0x25, 0x25, ent1(KeyboardMapEntrant::Keyboard(KBD_G)))));
    t.set(0x23, Some(Key::define(0x23, 0x23, ent1(KeyboardMapEntrant::Keyboard(KBD_H)))));
    t.set(0x26, Some(Key::define(0x26, 0x26, ent1(KeyboardMapEntrant::Keyboard(KBD_J)))));
    t.set(0x27, Some(Key::define(0x27, 0x27, ent1(KeyboardMapEntrant::Keyboard(KBD_K)))));
    t.set(0x29, Some(Key::define(0x29, 0x29, ent1(KeyboardMapEntrant::Keyboard(KBD_L)))));
    t.set(0x28, Some(Key::define(0x28, 0x28, ent1(KeyboardMapEntrant::Keyboard(KBD_NO_EVENT)))));
    t.set(0x69, Some(Key::define(0x69, 0x69, ent1(KeyboardMapEntrant::Keyboard(KBD_NO_EVENT)))));
    t.set(0x46, Some(Key::define(0x46, 0x46, ent1(KeyboardMapEntrant::Keyboard(KBD_BACKSLASH)))));
    t.set(0x56, Some(Key::define(0x56, 0x56, ent1(KeyboardMapEntrant::Keyboard(KBD_GRAVE)))));
    t.set(0x30, Some(Key::define(0x30, 0x30, ent1(KeyboardMapEntrant::Keyboard(KBD_Z)))));
    t.set(0x31, Some(Key::define(0x31, 0x31, ent1(KeyboardMapEntrant::Keyboard(KBD_X)))));
    t.set(0x32, Some(Key::define(0x32, 0x32, ent1(KeyboardMapEntrant::Keyboard(KBD_C)))));
    t.set(0x33, Some(Key::define(0x33, 0x33, ent1(KeyboardMapEntrant::Keyboard(KBD_V)))));
    t.set(0x34, Some(Key::define(0x34, 0x34, ent1(KeyboardMapEntrant::Keyboard(KBD_B)))));
    t.set(0x35, Some(Key::define(0x35, 0x35, ent1(KeyboardMapEntrant::Keyboard(KBD_N)))));
    t.set(0x36, Some(Key::define(0x36, 0x36, ent1(KeyboardMapEntrant::Keyboard(KBD_M)))));
    t.set(0x37, Some(Key::define(0x37, 0x37, ent1(KeyboardMapEntrant::Keyboard(KBD_COMMA)))));
    t.set(0x38, Some(Key::define(0x38, 0x38, ent1(KeyboardMapEntrant::Keyboard(KBD_DOT)))));
    t.set(0x39, Some(Key::define(0x39, 0x39, ent1(KeyboardMapEntrant::Keyboard(KBD_FORWARD_SLASH)))));
    t.set(0x66, Some(Key::define(0x66, 0x66, ent1(KeyboardMapEntrant::Keyboard(KBD_RETURN_ENTER)))));
    t.set(0x68, Some(Key::define(0x68, 0x68, ent1(KeyboardMapEntrant::Keyboard(KBD_SPACE)))));
    t
}

fn build_layer_01() -> (r: Vec<Option<Key>>)
    ensures
        r@.len() == NUM_SLOTS,
        forall|s: int| 0 <= s < NUM_SLOTS ==> key_model_opt(#[trigger] r@[s]) == layer_01_entry(s as u8),
{
    let mut t = empty_slots();
    t.set(0x0, Some(Key::define(0x0, 0x0, ent1(KeyboardMapEntrant::Keyboard(KBD_LEFT_CONTROL)))));
    t
}

fn build_layer_02() -> (r: Vec<Option<Key>>)
    ensures
        r@.len() == NUM_SLOTS,
        forall|s: int| 0 <= s < NUM_SLOTS ==> key_model_opt(#[trigger] r@[s]) == layer_02_entry(s as u8),
{
    let t = empty_slots();
    t
}

fn build_layer_03() -> (r: Vec<Option<Key>>)
    ensures
        r@.len() == NUM_SLOTS,
        forall|s: int| 0 <= s < NUM_SLOTS ==> key_model_opt(#[trigger] r@[s]) == layer_03_entry(s as u8),
{
    let mut t = empty_slots();
    t.set(0x0, Some(Key::define(0x0, 0x0, ent1(KeyboardMapEntrant::Keyboard(KBD_TAB)))));
    t
}

fn build_layer_04() -> (r: Vec<Option<Key>>)
    ensures
        r@.len() == NUM_SLOTS,
        forall|s: int| 0 <= s < NUM_SLOTS ==> key_model_opt(#[trigger] r@[s]) == layer_04_entry(s as u8),
{
    let mut t = empty_slots();
    t.set(0x0, Some(Key::define(0x0, 0x0, ent1(KeyboardMapEntrant::Keyboard(KBD_LEFT_SHIFT)))));
    t
}

fn build_layer_05() -> (r: Vec<Option<Key>>)
    ensures
        r@.len() == NUM_SLOTS,
        forall|s: int| 0 <= s < NUM_SLOTS ==> key_model_opt(#[trigger] r@[s]) == layer_05_entry(s as u8),
{
    let mut t = empty_slots();
    t.set(0x0, Some(Key::define(0x0, 0x0, ent2(KeyboardMapEntrant::Keyboard(KBD_LEFT_CONTROL), KeyboardMapEntrant::Keyboard(KBD_LEFT_SHIFT)))));
    t
}

fn build_layer_07() -> (r: Vec<Option<Key>>)
    ensures
        r@.len() == NUM_SLOTS,
        forall|s: int| 0 <= s < NUM_SLOTS ==> key_model_opt(#[trigger] r@[s]) == layer_07_entry(s as u8),
{
    let mut t = empty_slots();
    t.set(0x0, Some(Key::define(0x0, 0x0, ent3(KeyboardMapEntrant::Keyboard(KBD_LEFT_CONTROL), KeyboardMapEntrant::Keyboard(KBD_LEFT_SHIFT), KeyboardMapEntrant::Keyboard(KBD_TAB)))));
    t
}

fn build_layer_40() -> (r: Vec<Option<Key>>)
    ensures
        r@.len() == NUM_SLOTS,
        forall|s: int| 0 <= s < NUM_SLOTS ==> key_model_opt(#[trigger] r@[s]) == layer_40_entry(s as u8),
{
    let mut t = empty_slots();
    t.set(0x0, Some(Key::define(0x0, 0x0, ent1(KeyboardMapEntrant::Keyboard(KBD_LEFT_ALT)))));
    t.set(0x20, Some(Key::define(0x20, 0x20, ent2(KeyboardMapEntrant::Keyboard(KBD_LEFT_GUI), KeyboardMapEntrant::Keyboard(KBD_A)))));
    t.set(0x32, Some(Key::define(0x32, 0x32, ent2(KeyboardMapEntrant::Keyboard(KBD_LEFT_GUI), KeyboardMapEntrant::Keyboard(KBD_C)))));
    t.set(0x33, Some(Key::define(0x33, 0x33, ent2(KeyboardMapEntrant::Keyboard(KBD_LEFT_GUI), KeyboardMapEntrant::Keyboard(KBD_V)))));
    t.set(0x12, Some(Key::define(0x12, 0x12, ent2(KeyboardMapEntrant::Keyboard(KBD_LEFT_GUI), KeyboardMapEntrant::Keyboard(KBD_W)))));
    t.set(0x14, Some(Key::define(0x14, 0x14, ent2(KeyboardMapEntrant::Keyboard(KBD_LEFT_GUI), KeyboardMapEntrant::Keyboard(KBD_R)))));
    t.set(0x16, Some(Key::define(0x16, 0x16, ent2(KeyboardMapEntrant::Keyboard(KBD_LEFT_GUI), KeyboardMapEntrant::Keyboard(KBD_T)))));
    t.set(0x31, Some(Key::define(0x31, 0x31, ent2(KeyboardMapEntrant::Keyboard(KBD_LEFT_GUI), KeyboardMapEntrant::Keyboard(KBD_X)))));
    t.set(0x29, Some(Key::define(0x29, 0x29, ent2(KeyboardMapEntrant::Keyboard(KBD_LEFT_GUI), KeyboardMapEntrant::Keyboard(KBD_L)))));
    t.set(0x35, Some(Key::define(0x35, 0x35, ent2(KeyboardMapEntrant::Keyboard(KBD_LEFT_GUI), KeyboardMapEntrant::Keyboard(KBD_N)))));
    t
}

fn build_layer_44() -> (r: Vec<Option<Key>>)
    ensures
        r@.len() == NUM_SLOTS,
        forall|s: int| 0 <= s < NUM_SLOTS ==> key_model_opt(#[trigger] r@[s]) == layer_44_entry(s as u8),
{
    let mut t = empty_slots();
    t.set(0x0, Some(Key::define(0x0, 0x0, ent2(KeyboardMapEntrant::Keyboard(KBD_LEFT_ALT), KeyboardMapEntrant::Keyboard(KBD_LEFT_SHIFT)))));
    t.set(0x29, Some(Key::define(0x29, 0x29, ent2(KeyboardMapEntrant::Keyboard(KBD_LEFT_ALT), KeyboardMapEntrant::Keyboard(KBD_L)))));
    t.set(0x35, Some(Key::define(0x35, 0x35, ent2(KeyboardMapEntrant::Keyboard(KBD_LEFT_ALT), KeyboardMapEntrant::Keyboard(KBD_N)))));
    t.set(0x1, Some(Key::define(0x1, 0x1, ent2(KeyboardMapEntrant::Keyboard(KBD_LEFT_GUI), KeyboardMapEntrant::Keyboard(KBD_KEYBOARD1)))));
    t.set(0x2, Some(Key::define(0x2, 0x2, ent2(KeyboardMapEntrant::Keyboard(KBD_LEFT_GUI), KeyboardMapEntrant::Keyboard(KBD_KEYBOARD2)))));
    t.set(0x3, Some(Key::define(0x3, 0x3, ent2(KeyboardMapEntrant::Keyboard(KBD_LEFT_GUI), KeyboardMapEntrant::Keyboard(KBD_KEYBOARD3)))));
    t.set(0x4, Some(Key::define(0x4, 0x4, ent2(KeyboardMapEntrant::Keyboard(KBD_LEFT_GUI), KeyboardMapEntrant::Keyboard(KBD_KEYBOARD4)))));
    t.set(0x6, Some(Key::define(0x6, 0x6, ent2(KeyboardMapEntrant::Keyboard(KBD_LEFT_GUI), KeyboardMapEntrant::Keyboard(KBD_KEYBOARD5)))));
    t.set(0x5, Some(Key::define(0x5, 0x5, ent2(KeyboardMapEntrant::Keyboard(KBD_LEFT_GUI), KeyboardMapEntrant::Keyboard(KBD_KEYBOARD6)))));
    t.set(0x7, Some(Key::define(0x7, 0x7, ent3(KeyboardMapEntrant::Keyboard(KBD_LEFT_ALT), KeyboardMapEntrant::Keyboard(KBD_LEFT_SHIFT), KeyboardMapEntrant::Keyboard(KBD_KEYBOARD7)))));
    t.set(0x8, Some(Key::define(0x8, 0x8, ent2(KeyboardMapEntrant::Keyboard(KBD_LEFT_GUI), KeyboardMapEntrant::Keyboard(KBD_KEYBOARD8)))));
    t.set(0x9, Some(Key::define(0x9, 0x9, ent2(KeyboardMapEntrant::Keyboard(KBD_LEFT_GUI), KeyboardMapEntrant::Keyboard(KBD_KEYBOARD9)))));
    t.set(0x48, Some(Key::define(0x48, 0x48, ent2(KeyboardMapEntrant::Keyboard(KBD_LEFT_GUI), KeyboardMapEntrant::Keyboard(KBD_KEYBOARD0)))));
    t
}

fn build_layer_80() -> (r: Vec<Option<Key>>)
    ensures
        r@.len() == NUM_SLOTS,
        forall|s: int| 0 <= s < NUM_SLOTS ==> key_model_opt(#[trigger] r@[s]) == layer_80_entry(s as u8),
{
    let mut t = empty_slots();
    t.set(0x0, Some(Key::define(0x0, 0x0, ent1(KeyboardMapEntrant::Keyboard(KBD_LEFT_GUI)))));
    t.set(0x6e, Some(Key::define(0x6e, 0xee, ent2(KeyboardMapEntrant::Keyboard(KBD_LEFT_GUI), KeyboardMapEntrant::Keyboard(KBD_N)))));
    t.set(0x23, Some(Key::define(0x23, 0x23, ent1(KeyboardMapEntrant::Keyboard(KBD_LEFT_ARROW)))));
    t.set(0x26, Some(Key::define(0x26, 0x26, ent1(KeyboardMapEntrant::Keyboard(KBD_DOWN_ARROW)))));
    t.set(0x27, Some(Key::define(0x27, 0x27, ent1(KeyboardMapEntrant::Keyboard(KBD_UP_ARROW)))));
    t.set(0x29, Some(Key::define(0x29, 0x29, ent1(KeyboardMapEntrant::Keyboard(KBD_RIGHT_ARROW)))));
    t.set(0x1, Some(Key::define(0x1, 0x1, ent1(KeyboardMapEntrant::Keyboard(KBD_F1)))));
    t.set(0x2, Some(Key::define(0x2, 0x2, ent1(KeyboardMapEntrant::Keyboard(KBD_F2)))));
    t.set(0x3, Some(Key::define(0x3, 0x3, ent1(KeyboardMapEntrant::Keyboard(KBD_F3)))));
    t.set(0x4, Some(Key::define(0x4, 0x4, ent1(KeyboardMapEntrant::Keyboard(KBD_F4)))));
    t.set(0x6, Some(Key::define(0x6, 0x6, ent1(KeyboardMapEntrant::Keyboard(KBD_F5)))));
    t.set(0x5, Some(Key::define(0x5, 0x5, ent1(KeyboardMapEntrant::Keyboard(KBD_F6)))));
    t.set(0x7, Some(Key::define(0x7, 0x7, ent1(KeyboardMapEntrant::Consumer(CON_REWIND)))));
    t.set(0x8, Some(Key::define(0x8, 0x8, ent1(KeyboardMapEntrant::Consumer(CON_PLAY_PAUSE)))));
    t.set(0x9, Some(Key::define(0x9, 0x9, ent1(KeyboardMapEntrant::Consumer(CON_FAST_FORWARD)))));
    t.set(0x48, Some(Key::define(0x48, 0x48, ent1(KeyboardMapEntrant::Consumer(CON_MUTE)))));
    t.set(0x49, Some(Key::define(0x49, 0x49, ent1(KeyboardMapEntrant::Consumer(CON_VOLUME_DECREMENT)))));
    t.set(0x47, Some(Key::define(0x47, 0x47, ent1(KeyboardMapEntrant::Consumer(CON_VOLUME_INCREMENT)))));
    t
}

fn build_layer_85() -> (r: Vec<Option<Key>>)
    ensures
        r@.len() == NUM_SLOTS,
        forall|s: int| 0 <= s < NUM_SLOTS ==> key_model_opt(#[trigger] r@[s]) == layer_85_entry(s as u8),
{
    let mut t = empty_slots();
    t.set(0x0, Some(Key::define(0x0, 0x0, ent1(KeyboardMapEntrant::Keyboard(KBD_NO_EVENT)))));
    t
}

fn build_layer_c0() -> (r: Vec<Option<Key>>)
    ensures
        r@.len() == NUM_SLOTS,
        forall|s: int| 0 <= s < NUM_SLOTS ==> key_model_opt(#[trigger] r@[s]) == layer_c0_entry(s as u8),
{
    let mut t = empty_slots();
    t.set(0x0, Some(Key::define(0x0, 0x0, ent1(KeyboardMapEntrant::Keyboard(KBD_NO_EVENT)))));
    t.set(0x23, Some(Key::define(0x23, 0x23, ent2(KeyboardMapEntrant::Keyboard(KBD_LEFT_CONTROL), KeyboardMapEntrant::Keyboard(KBD_LEFT_ARROW)))));
    t.set(0x26, Some(Key::define(0x26, 0x26, ent2(KeyboardMapEntrant::Keyboard(KBD_LEFT_CONTROL), KeyboardMapEntrant::Keyboard(KBD_DOWN_ARROW)))));
    t.set(0x27, Some(Key::define(0x27, 0x27, ent2(KeyboardMapEntrant::Keyboard(KBD_LEFT_CONTROL), KeyboardMapEntrant::Keyboard(KBD_UP_ARROW)))));
    t.set(0x29, Some(Key::define(0x29, 0x29, ent2(KeyboardMapEntrant::Keyboard(KBD_LEFT_CONTROL), KeyboardMapEntrant::Keyboard(KBD_RIGHT_ARROW)))));
    t.set(0x18, Some(Key::define(0x18, 0x18, ent3(KeyboardMapEntrant::Keyboard(KBD_LEFT_ALT), KeyboardMapEntrant::Keyboard(KBD_LEFT_GUI), KeyboardMapEntrant::Keyboard(KBD_I)))));
    t
}

fn build_layer_c4() -> (r: Vec<Option<Key>>)
    ensures
        r@.len() == NUM_SLOTS,
        forall|s: int| 0 <= s < NUM_SLOTS ==> key_model_opt(#[trigger] r@[s]) == layer_c4_entry(s as u8),
{
    let mut t = empty_slots();
    t.set(0x0, Some(Key::define(0x0, 0x0, ent1(KeyboardMapEntrant::Keyboard(KBD_NO_EVENT)))));
    t
}

/// Builds the layout: one table per defined layer, placed at the index of
/// its layer byte, with every other layer absent.
pub fn hoist_hid_keyboard_map() -> (r: Vec<Option<Vec<Option<Key>>>>)
    ensures
        r@.len() == NUM_LAYERS,
        forall|l: int|
            0 <= l < NUM_LAYERS ==> ((#[trigger] r@[l]) is Some <==> spec_layer_defined(l as u8)),
        forall|l: int|
            0 <= l < NUM_LAYERS && r@[l] is Some ==> (#[trigger] r@[l])->0@.len() == NUM_SLOTS,
        forall|l: int, s: int|
            0 <= l < NUM_LAYERS && r@[l] is Some && 0 <= s < NUM_SLOTS ==> key_model_opt(
                #[trigger] r@[l]->0@[s],
            ) == spec_table_entry(l as u8, s as u8),
{
    let mut layers: Vec<Option<Vec<Option<Key>>>> = Vec::new();
    while layers.len() < NUM_LAYERS
        invariant
            layers@.len() <= NUM_LAYERS,
            forall|l: int| 0 <= l < layers@.len() ==> layers@[l] is None,
        decreases NUM_LAYERS - layers.len(),
    {
        layers.push(None);
    }
    layers.set(0x0, Some(build_layer_00()));
    layers.set(0x1, Some(build_layer_01()));
    layers.set(0x2, Some(build_layer_02()));
    layers.set(0x3, Some(build_layer_03()));
    layers.set(0x4, Some(build_layer_04()));
    layers.set(0x5, Some(build_layer_05()));
    layers.set(0x7, Some(build_layer_07()));
    layers.set(0x40, Some(build_layer_40()));
    layers.set(0x44, Some(build_layer_44()));
    layers.set(0x80, Some(build_layer_80()));
    layers.set(0x85, Some(build_layer_85()));
    layers.set(0xc0, Some(build_layer_c0()));
    layers.set(0xc4, Some(build_layer_c4()));
    layers
}

} // verus!
