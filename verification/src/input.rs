//! Modifier switches and key events of the embedded keyboard driver. A
//! modifier scan code is one of a fixed set of disjoint bit values, so any
//! combination of pressed switches composes into a single layer byte without
//! collisions.

use vstd::prelude::*;

use crate::kbmap::Key;

verus! {

/// Mask that recovers a key-down scan code from a raw scan code.
pub const KEY_ASCII: u8 = 0x7F;

/// A key resolved from the map, together with the transition direction.
pub type KeyEvent = (Key, KbDriverInput);

/// A classified transition of the layer slot: the layer, the slot scan code,
/// and the resolved event.
pub type ModifyEvent = (u8, u8, KeyEvent);

/// Outcome of classifying the layer slot for one tick: record a fresh bare
/// layer press, remove a released one, or leave the log alone.
pub enum Modify {
    Record(ModifyEvent),
    Remove(ModifyEvent),
    Idle,
}

/// Every combination of physical modifier switches that the layer byte can
/// name. The open and closed Apple switches contribute 0x40 and 0x80; the
/// control, reset and shift switches contribute 0x01, 0x02 and 0x04.
#[derive(Clone, Copy, Debug, PartialEq, Eq, Structural)]
pub enum Modifiers {
    Bare,
    OpenApple,
    ClosedApple,
    OpenClosedApple,
    Control,
    Reset,
    Shift,
    OpenAppleControl,
    OpenAppleReset,
    OpenAppleResetControl,
    OpenAppleShift,
    OpenAppleShiftReset,
    OpenAppleShiftResetControl,
    ClosedAppleControl,
    ClosedAppleReset,
    ClosedAppleResetControl,
    ClosedAppleShift,
    ClosedAppleShiftReset,
    ClosedAppleShiftResetControl,
    OpenClosedAppleControl,
    OpenClosedAppleReset,
    OpenClosedAppleResetControl,
    OpenClosedAppleShift,
    OpenClosedAppleShiftReset,
    OpenClosedAppleShiftResetControl,
    ControlReset,
    ControlResetShift,
    ControlShift,
}

/// The scan code of a modifier combination: the sum of the bit values of the
/// switches it names.
pub open spec fn modifier_code(m: Modifiers) -> u8 {
    match m {
        Modifiers::Bare => 0x00,
        Modifiers::OpenApple => 0x40,
        Modifiers::ClosedApple => 0x80,
        Modifiers::OpenClosedApple => 0xC0,
        Modifiers::Control => 0x01,
        Modifiers::Reset => 0x02,
        Modifiers::Shift => 0x04,
        Modifiers::OpenAppleControl => 0x41,
        Modifiers::OpenAppleReset => 0x42,
        Modifiers::OpenAppleResetControl => 0x43,
        Modifiers::OpenAppleShift => 0x44,
        Modifiers::OpenAppleShiftReset => 0x46,
        Modifiers::OpenAppleShiftResetControl => 0x47,
        Modifiers::ClosedAppleControl => 0x81,
        Modifiers::ClosedAppleReset => 0x82,
        Modifiers::ClosedAppleResetControl => 0x83,
        Modifiers::ClosedAppleShift => 0x84,
        Modifiers::ClosedAppleShiftReset => 0x86,
        Modifiers::ClosedAppleShiftResetControl => 0x87,
        Modifiers::OpenClosedAppleControl => 0xC1,
        Modifiers::OpenClosedAppleReset => 0xC2,
        Modifiers::OpenClosedAppleResetControl => 0xC3,
        Modifiers::OpenClosedAppleShift => 0xC4,
        Modifiers::OpenClosedAppleShiftReset => 0xC6,
        Modifiers::OpenClosedAppleShiftResetControl => 0xC7,
        Modifiers::ControlReset => 0x03,
        Modifiers::ControlResetShift => 0x07,
        Modifiers::ControlShift => 0x05,
    }
}

/// The combination a modifier scan code names, if the code is defined.
pub open spec fn spec_modifiers_get(code: u8) -> Option<Modifiers> {
    if code == 0x00 {
        Some(Modifiers::Bare)
    } else if code == 0x40 {
        Some(Modifiers::OpenApple)
    } else if code == 0x80 {
        Some(Modifiers::ClosedApple)
    } else if code == 0xC0 {
        Some(Modifiers::OpenClosedApple)
    } else if code == 0x01 {
        Some(Modifiers::Control)
    } else if code == 0x02 {
        Some(Modifiers::Reset)
    } else if code == 0x04 {
        Some(Modifiers::Shift)
    } else if code == 0x41 {
        Some(Modifiers::OpenAppleControl)
    } else if code == 0x42 {
        Some(Modifiers::OpenAppleReset)
    } else if code == 0x43 {
        Some(Modifiers::OpenAppleResetControl)
    } else if code == 0x44 {
        Some(Modifiers::OpenAppleShift)
    } else if code == 0x46 {
        Some(Modifiers::OpenAppleShiftReset)
    } else if code == 0x47 {
        Some(Modifiers::OpenAppleShiftResetControl)
    } else if code == 0x81 {
        Some(Modifiers::ClosedAppleControl)
    } else if code == 0x82 {
        Some(Modifiers::ClosedAppleReset)
    } else if code == 0x83 {
        Some(Modifiers::ClosedAppleResetControl)
    } else if code == 0x84 {
        Some(Modifiers::ClosedAppleShift)
    } else if code == 0x86 {
        Some(Modifiers::ClosedAppleShiftReset)
    } else if code == 0x87 {
        Some(Modifiers::ClosedAppleShiftResetControl)
    } else if code == 0xC1 {
        Some(Modifiers::OpenClosedAppleControl)
    } else if code == 0xC2 {
        Some(Modifiers::OpenClosedAppleReset)
    } else if code == 0xC3 {
        Some(Modifiers::OpenClosedAppleResetControl)
    } else if code == 0xC4 {
        Some(Modifiers::OpenClosedAppleShift)
    } else if code == 0xC6 {
        Some(Modifiers::OpenClosedAppleShiftReset)
    } else if code == 0xC7 {
        Some(Modifiers::OpenClosedAppleShiftResetControl)
    } else if code == 0x03 {
        Some(Modifiers::ControlReset)
    } else if code == 0x07 {
        Some(Modifiers::ControlResetShift)
    } else if code == 0x05 {
        Some(Modifiers::ControlShift)
    } else {
        Option::None
    }
}

impl Modifiers {
    /// Resolves a modifier scan code to its combination. Returns `None`
    /// exactly on the codes that no combination of switches produces.
    pub fn get(modifier_scan_code: u8) -> (r: Option<Modifiers>)
        ensures
            r == spec_modifiers_get(modifier_scan_code),
            r is Some ==> modifier_code(r->0) == modifier_scan_code,
    {
        match modifier_scan_code {
            0x00 => Some(Modifiers::Bare),
            0x40 => Some(Modifiers::OpenApple),
            0x80 => Some(Modifiers::ClosedApple),
            0xC0 => Some(Modifiers::OpenClosedApple),
            0x01 => Some(Modifiers::Control),
            0x02 => Some(Modifiers::Reset),
            0x04 => Some(Modifiers::Shift),
            0x41 => Some(Modifiers::OpenAppleControl),
            0x42 => Some(Modifiers::OpenAppleReset),
            0x43 => Some(Modifiers::OpenAppleResetControl),
            0x44 => Some(Modifiers::OpenAppleShift),
            0x46 => Some(Modifiers::OpenAppleShiftReset),
            0x47 => Some(Modifiers::OpenAppleShiftResetControl),
            0x81 => Some(Modifiers::ClosedAppleControl),
            0x82 => Some(Modifiers::ClosedAppleReset),
            0x83 => Some(Modifiers::ClosedAppleResetControl),
            0x84 => Some(Modifiers::ClosedAppleShift),
            0x86 => Some(Modifiers::ClosedAppleShiftReset),
            0x87 => Some(Modifiers::ClosedAppleShiftResetControl),
            0xC1 => Some(Modifiers::OpenClosedAppleControl),
            0xC2 => Some(Modifiers::OpenClosedAppleReset),
            0xC3 => Some(Modifiers::OpenClosedAppleResetControl),
            0xC4 => Some(Modifiers::OpenClosedAppleShift),
            0xC6 => Some(Modifiers::OpenClosedAppleShiftReset),
            0xC7 => Some(Modifiers::OpenClosedAppleShiftResetControl),
            0x03 => Some(Modifiers::ControlReset),
            0x07 => Some(Modifiers::ControlResetShift),
            0x05 => Some(Modifiers::ControlShift),
            _ => None,
        }
    }

    /// The scan code of this combination.
    pub fn code(self) -> (r: u8)
        ensures
            r == modifier_code(self),
    {
        match self {
            Modifiers::Bare => 0x00,
            Modifiers::OpenApple => 0x40,
            Modifiers::ClosedApple => 0x80,
            Modifiers::OpenClosedApple => 0xC0,
            Modifiers::Control => 0x01,
            Modifiers::Reset => 0x02,
            Modifiers::Shift => 0x04,
            Modifiers::OpenAppleControl => 0x41,
            Modifiers::OpenAppleReset => 0x42,
            Modifiers::OpenAppleResetControl => 0x43,
            Modifiers::OpenAppleShift => 0x44,
            Modifiers::OpenAppleShiftReset => 0x46,
            Modifiers::OpenAppleShiftResetControl => 0x47,
            Modifiers::ClosedAppleControl => 0x81,
            Modifiers::ClosedAppleReset => 0x82,
            Modifiers::ClosedAppleResetControl => 0x83,
            Modifiers::ClosedAppleShift => 0x84,
            Modifiers::ClosedAppleShiftReset => 0x86,
            Modifiers::ClosedAppleShiftResetControl => 0x87,
            Modifiers::OpenClosedAppleControl => 0xC1,
            Modifiers::OpenClosedAppleReset => 0xC2,
            Modifiers::OpenClosedAppleResetControl => 0xC3,
            Modifiers::OpenClosedAppleShift => 0xC4,
            Modifiers::OpenClosedAppleShiftReset => 0xC6,
            Modifiers::OpenClosedAppleShiftResetControl => 0xC7,
            Modifiers::ControlReset => 0x03,
            Modifiers::ControlResetShift => 0x07,
            Modifiers::ControlShift => 0x05,
        }
    }

    /// The name of a single switch, or the empty string for any combination
    /// of more than one.
    pub fn outer_as_string(self) -> (r: String)
        ensures
            self is Bare ==> r@ == "bare"@,
            self is OpenApple ==> r@ == "open"@,
            self is ClosedApple ==> r@ == "closed"@,
            self is Control ==> r@ == "control"@,
            self is Reset ==> r@ == "reset"@,
            self is Shift ==> r@ == "shift"@,
            spec_is_multiple(self) || self is OpenClosedApple ==> r@ == ""@,
    {
        match self {
            Modifiers::Bare => String::from_str("bare"),
            Modifiers::OpenApple => String::from_str("open"),
            Modifiers::ClosedApple => String::from_str("closed"),
            Modifiers::Control => String::from_str("control"),
            Modifiers::Reset => String::from_str("reset"),
            Modifiers::Shift => String::from_str("shift"),
            _ => String::from_str(""),
        }
    }

    /// True when the combination involves more than one switch.
    pub fn is_multiple(self) -> (r: bool)
        ensures
            r == spec_is_multiple(self),
    {
        match self {
            Modifiers::Bare => false,
            Modifiers::OpenApple => false,
            Modifiers::ClosedApple => false,
            Modifiers::Control => false,
            Modifiers::Reset => false,
            Modifiers::Shift => false,
            _ => true,
        }
    }
}

/// True for every combination that names more than one switch. `Bare` and
/// the five single switches are the only exceptions.
pub open spec fn spec_is_multiple(m: Modifiers) -> bool {
    !(m is Bare || m is OpenApple || m is ClosedApple || m is Control || m is Reset
        || m is Shift)
}

/// A transition handed through the driver: a bare direction straight from
/// the scanner, or a resolved event carrying the modifier combination and
/// the key-up scan code.
#[derive(Debug)]
pub enum KbDriverInput {
    KeyDownEvent(Modifiers, u8, String),
    KeyUpEvent(Modifiers, u8, String),
    KeyDown,
    KeyUp,
}

impl Clone for KbDriverInput {
    /// Clones keep the variant and its fields; a carried string keeps its
    /// characters.
    fn clone(&self) -> (r: Self)
        ensures
            r is KeyDown <==> self is KeyDown,
            r is KeyUp <==> self is KeyUp,
            self matches KbDriverInput::KeyDownEvent(m, a, s) ==> (r matches
                KbDriverInput::KeyDownEvent(m2, a2, s2) && m2 == m && a2 == a && s2@ == s@),
            self matches KbDriverInput::KeyUpEvent(m, a, s) ==> (r matches
                KbDriverInput::KeyUpEvent(m2, a2, s2) && m2 == m && a2 == a && s2@ == s@),
    {
        match self {
            KbDriverInput::KeyDownEvent(m, a, s) => KbDriverInput::KeyDownEvent(
                *m,
                *a,
                clone_string(s),
            ),
            KbDriverInput::KeyUpEvent(m, a, s) => KbDriverInput::KeyUpEvent(
                *m,
                *a,
                clone_string(s),
            ),
            KbDriverInput::KeyDown => KbDriverInput::KeyDown,
            KbDriverInput::KeyUp => KbDriverInput::KeyUp,
        }
    }
}

/// Copies a string, keeping its characters.
fn clone_string(s: &String) -> (r: String)
    ensures
        r@ == s@,
{
    String::from_str(s.as_str())
}

impl KbDriverInput {
    /// Resolves a bare direction into an event for `key` under the modifier
    /// scan code: the combination when the code is defined, `Bare` when it
    /// is not, with the key-up code of the key. A bare `KeyUp` becomes a
    /// `KeyUpEvent`; anything else becomes a `KeyDownEvent`.
    pub fn from_key(modifier_scan_code: u8, key: Key, input: KbDriverInput) -> (r: KbDriverInput)
        ensures
            r matches KbDriverInput::KeyUpEvent(m, a, s) ==> {
                &&& input is KeyUp
                &&& Some(m) == spec_modifiers_get(modifier_scan_code) || (m is Bare
                    && spec_modifiers_get(modifier_scan_code) is None)
                &&& a == key.action
                &&& s@ == ""@
            },
            r matches KbDriverInput::KeyDownEvent(m, a, s) ==> {
                &&& !(input is KeyUp)
                &&& Some(m) == spec_modifiers_get(modifier_scan_code) || (m is Bare
                    && spec_modifiers_get(modifier_scan_code) is None)
                &&& a == key.action
                &&& s@ == ""@
            },
            r is KeyUpEvent <==> input is KeyUp,
            r is KeyDownEvent <==> !(input is KeyUp),
    {
        let modifier = match Modifiers::get(modifier_scan_code) {
            Some(modifier) => modifier,
            None => Modifiers::Bare,
        };
        match input {
            KbDriverInput::KeyUp => KbDriverInput::KeyUpEvent(modifier, key.action, String::from_str("")),
            _ => KbDriverInput::KeyDownEvent(modifier, key.action, String::from_str("")),
        }
    }
}

} // verus!
