//! Layered key map: one table per layer byte, one slot per scan code. A slot
//! holds a key definition — its down code, its up code, and the ordered HID
//! entrants it contributes to a report. A missing slot is a valid "no
//! mapping" state, not an error.

pub mod hid;

use vstd::prelude::*;

use crate::input::KbDriverInput;

verus! {

/// Number of layer tables the map owns.
pub const NUM_LAYERS: usize = 0xC5;

/// Number of scan-code slots within one layer table.
pub const NUM_SLOTS: usize = 256;

/// USB HID keyboard-page usage id: no event.
pub const KBD_NO_EVENT: u8 = 0x00;

/// USB HID keyboard-page usage id of the left Control key; the eight
/// canonical modifiers occupy ids 0xE0 through 0xE7 in order left Control,
/// left Shift, left Alt, left GUI, right Control, right Shift, right Alt,
/// right GUI.
pub const KBD_LEFT_CONTROL: u8 = 0xE0;

/// USB HID keyboard-page usage id of the left Shift key.
pub const KBD_LEFT_SHIFT: u8 = 0xE1;

/// USB HID keyboard-page usage id of the left Alt key.
pub const KBD_LEFT_ALT: u8 = 0xE2;

/// USB HID keyboard-page usage id of the left GUI key.
pub const KBD_LEFT_GUI: u8 = 0xE3;

/// USB HID keyboard-page usage id of the right GUI key, the last canonical
/// modifier.
pub const KBD_RIGHT_GUI: u8 = 0xE7;

/// One HID entrant a key contributes: a keyboard-page keycode or a
/// consumer-control usage id.
#[derive(Clone, Copy, Debug, PartialEq, Eq, Structural)]
pub enum KeyboardMapEntrant {
    Keyboard(u8),
    Consumer(u16),
}

impl KeyboardMapEntrant {
    /// The entrant as a keyboard keycode byte; a consumer usage id is
    /// truncated to its low byte.
    pub fn key_code(self) -> (r: u8)
        ensures
            r == entrant_key_code(self),
    {
        match self {
            KeyboardMapEntrant::Keyboard(k) => k,
            KeyboardMapEntrant::Consumer(c) => c as u8,
        }
    }

    /// The entrant as a consumer usage id; a keyboard keycode has none and
    /// reads zero.
    pub fn usage_id(self) -> (r: u16)
        ensures
            r == entrant_usage_id(self),
    {
        match self {
            KeyboardMapEntrant::Keyboard(_) => 0,
            KeyboardMapEntrant::Consumer(c) => c,
        }
    }

    /// True when the entrant is a consumer-control usage.
    pub fn is_consumer(self) -> (r: bool)
        ensures
            r == (self is Consumer),
    {
        match self {
            KeyboardMapEntrant::Keyboard(_) => false,
            KeyboardMapEntrant::Consumer(_) => true,
        }
    }
}

/// The keycode byte of an entrant; a consumer usage id truncates to its low
/// byte.
pub open spec fn entrant_key_code(e: KeyboardMapEntrant) -> u8 {
    match e {
        KeyboardMapEntrant::Keyboard(k) => k,
        KeyboardMapEntrant::Consumer(c) => c as u8,
    }
}

/// The consumer usage id of an entrant, zero for a keyboard keycode.
pub open spec fn entrant_usage_id(e: KeyboardMapEntrant) -> u16 {
    match e {
        KeyboardMapEntrant::Keyboard(_) => 0,
        KeyboardMapEntrant::Consumer(c) => c,
    }
}

/// True when the entrant is one of the eight canonical modifier keycodes.
pub open spec fn is_canonical_modifier(e: KeyboardMapEntrant) -> bool {
    e matches KeyboardMapEntrant::Keyboard(k) && KBD_LEFT_CONTROL <= k <= KBD_RIGHT_GUI
}

/// A key definition: `key` is the down scan code (equal to the slot it sits
/// in), `action` the up scan code, and `usb_hid` the ordered HID entrants
/// the key contributes.
#[derive(Debug)]
pub struct Key {
    pub key: u8,
    pub action: u8,
    pub usb_hid: Vec<KeyboardMapEntrant>,
}

impl Clone for Key {
    /// Clones keep the codes and the entrant list.
    fn clone(&self) -> (r: Self)
        ensures
            r.key == self.key,
            r.action == self.action,
            r.usb_hid@ == self.usb_hid@,
    {
        let r = Key { key: self.key, action: self.action, usb_hid: self.usb_hid.clone() };
        proof {
            assert(r.usb_hid@ =~= self.usb_hid@);
        }
        r
    }
}

impl Key {
    /// Builds a key definition from its parts.
    pub fn define(key: u8, action: u8, usb_hid: Vec<KeyboardMapEntrant>) -> (r: Key)
        ensures
            r.key == key,
            r.action == action,
            r.usb_hid == usb_hid,
    {
        Key { key, action, usb_hid }
    }
}

/// The mathematical shadow of a key definition.
pub ghost struct KeyModel {
    pub down: u8,
    pub up: u8,
    pub entrants: Seq<KeyboardMapEntrant>,
}

/// The model of an executable key definition.
pub open spec fn key_model(k: Key) -> KeyModel {
    KeyModel { down: k.key, up: k.action, entrants: k.usb_hid@ }
}

/// The model of an optional key definition.
pub open spec fn key_model_opt(k: Option<Key>) -> Option<KeyModel> {
    match k {
        Some(k) => Some(key_model(k)),
        None => None,
    }
}

/// A key definition is placed well at `slot`: it sits in the slot of its own
/// down code, the down code carries no high bit, and the up code either
/// equals the down code or differs from it exactly by the high bit.
pub open spec fn entry_well_placed(slot: int, m: KeyModel) -> bool {
    &&& m.down == slot
    &&& m.down < 0x80
    &&& (m.up == m.down || m.up == m.down + 0x80)
}

/// The layered key map. `layout[layer]` is the layer's table when the layer
/// exists; `layout[layer][slot]` the definition of the key whose down code
/// is `slot`.
#[derive(Debug)]
pub struct KeyMap {
    pub layout: Vec<Option<Vec<Option<Key>>>>,
}

impl KeyMap {
    /// Every layer table has a slot per scan code and every entry is placed
    /// well.
    pub open spec fn wf(self) -> bool {
        &&& self.layout@.len() == NUM_LAYERS
        &&& forall|l: int|
            0 <= l < NUM_LAYERS ==> (#[trigger] self.layout@[l] matches Some(table) ==> {
                &&& table@.len() == NUM_SLOTS
                &&& forall|s: int|
                    0 <= s < NUM_SLOTS ==> (#[trigger] table@[s] matches Some(k)
                        ==> entry_well_placed(s, key_model(k)))
            })
    }

    /// True when the map defines a key at `(layer, slot)`.
    pub open spec fn has_entry(self, layer: u8, slot: u8) -> bool {
        &&& layer < self.layout@.len()
        &&& self.layout@[layer as int] matches Some(table) && slot < table@.len()
            && table@[slot as int] is Some
    }

    /// The model of the definition at `(layer, slot)`.
    pub open spec fn entry_model(self, layer: u8, slot: u8) -> KeyModel
        recommends
            self.has_entry(layer, slot),
    {
        key_model(self.layout@[layer as int]->0@[slot as int]->0)
    }

    /// What a lookup returns: the slot is the scan code with its high bit
    /// masked away; the transition is down exactly when the raw code equals
    /// the masked code.
    pub open spec fn spec_find(self, layer: u8, scan_code: u8) -> Option<(KeyModel, bool)> {
        let slot = scan_code & KEY_ASCII_MASK;
        if self.has_entry(layer, slot) {
            Some((self.entry_model(layer, slot), scan_code == slot))
        } else {
            None
        }
    }

    /// Builds the key map from the literal layout table. The result is well
    /// formed and defines exactly the entries of `hid::spec_table_entry`.
    pub fn init() -> (r: KeyMap)
        ensures
            r.wf(),
            forall|l: int|
                0 <= l < NUM_LAYERS ==> ((#[trigger] r.layout@[l]) is Some
                    <==> hid::spec_layer_defined(l as u8)),
            forall|l: u8, s: u8|
                #![trigger r.has_entry(l, s)]
                #![trigger hid::spec_table_entry(l, s)]
                r.has_entry(l, s) <==> hid::spec_table_entry(l, s) is Some,
            forall|l: u8, s: u8|
                #[trigger] r.has_entry(l, s) ==> r.entry_model(l, s) == hid::spec_table_entry(
                    l,
                    s,
                )->0,
    {
        let layout = hid::hoist_hid_keyboard_map();
        let r = KeyMap { layout };
        proof {
            assert forall|l: int, s: int|
                0 <= l < NUM_LAYERS && r.layout@[l] is Some && 0 <= s < NUM_SLOTS && (#[trigger] r.layout@[l]->0@[s]) is Some implies entry_well_placed(
                s,
                key_model(r.layout@[l]->0@[s]->0),
            ) by {
                hid::lemma_table_well_placed(l as u8, s as u8);
            }
            assert forall|l: u8, s: u8| #[trigger]
                r.has_entry(l, s) implies r.entry_model(l, s) == hid::spec_table_entry(l, s)->0 by {
                assert(key_model_opt(r.layout@[l as int]->0@[s as int]) == hid::spec_table_entry(
                    l,
                    s,
                ));
            }
            assert forall|l: u8, s: u8|
                #![trigger r.has_entry(l, s)]
                #![trigger hid::spec_table_entry(l, s)]
                r.has_entry(l, s) <==> hid::spec_table_entry(l, s) is Some by {
                if (l as int) < NUM_LAYERS && r.layout@[l as int] is Some {
                    assert(key_model_opt(r.layout@[l as int]->0@[s as int])
                        == hid::spec_table_entry(l, s));
                } else {
                    assert(!hid::spec_layer_defined(l));
                }
            }
        }
        r
    }

    /// Looks up a scan code in a layer. The scan code is masked to its
    /// down-code form to locate the entry; equality of the raw code with the
    /// masked form makes the transition `KeyDown`, anything else `KeyUp`.
    /// `None` comes exactly when the layer has no table or the masked code
    /// no entry in it.
    pub fn find_input(&self, layer: u8, scan_code: u8) -> (r: Option<(Key, KbDriverInput)>)
        ensures
            r is Some <==> self.spec_find(layer, scan_code) is Some,
            r matches Some((k, d)) ==> (self.spec_find(layer, scan_code) matches Some(fm) && {
                &&& key_model(k) == fm.0
                &&& (d is KeyDown <==> fm.1)
                &&& (d is KeyUp <==> !fm.1)
            }),
    {
        if (layer as usize) >= self.layout.len() {
            return None;
        }
        match &self.layout[layer as usize] {
            Some(table) => {
                let slot = scan_code & 0x7F;
                if (slot as usize) >= table.len() {
                    return None;
                }
                match &table[slot as usize] {
                    Some(key) => {
                        let direction = if scan_code == slot {
                            KbDriverInput::KeyDown
                        } else {
                            KbDriverInput::KeyUp
                        };
                        Some((key.clone(), direction))
                    },
                    None => None,
                }
            },
            None => None,
        }
    }
}

/// Mask value equal to `crate::input::KEY_ASCII`, restated here for spec use.
pub const KEY_ASCII_MASK: u8 = 0x7F;

/// Two maps that define the same entries resolve every lookup alike: a
/// lookup reads the map only through which entries exist and what they
/// hold, never through the allocation that stores them. Two separately
/// built copies of one layout are therefore interchangeable in every
/// contract stated over `spec_find`.
pub proof fn lemma_same_model_same_find(m1: KeyMap, m2: KeyMap)
    requires
        forall|l: u8, s: u8|
            #![trigger m1.has_entry(l, s)]
            #![trigger m2.has_entry(l, s)]
            m1.has_entry(l, s) <==> m2.has_entry(l, s),
        forall|l: u8, s: u8|
            #[trigger] m1.has_entry(l, s) ==> m1.entry_model(l, s) == m2.entry_model(l, s),
    ensures
        forall|l: u8, s: u8| #[trigger] m1.spec_find(l, s) == m2.spec_find(l, s),
{
    assert forall|l: u8, s: u8| #[trigger] m1.spec_find(l, s) == m2.spec_find(l, s) by {
        let slot = s & KEY_ASCII_MASK;
        assert(m1.has_entry(l, slot) <==> m2.has_entry(l, slot));
        if m1.has_entry(l, slot) {
            assert(m1.entry_model(l, slot) == m2.entry_model(l, slot));
        }
    }
}

/// Round trip of the key map: looking a definition's down code up in its own
/// layer finds the definition with a down transition, and, when the up code
/// differs from the down code, looking the up code up finds the same
/// definition with an up transition.
pub proof fn lemma_key_map_round_trip(m: KeyMap, layer: u8, slot: u8)
    requires
        m.wf(),
        m.has_entry(layer, slot),
    ensures
        m.spec_find(layer, m.entry_model(layer, slot).down) == Some(
            (m.entry_model(layer, slot), true),
        ),
        m.entry_model(layer, slot).up != m.entry_model(layer, slot).down ==> m.spec_find(
            layer,
            m.entry_model(layer, slot).up,
        ) == Some((m.entry_model(layer, slot), false)),
{
    let e = m.entry_model(layer, slot);
    assert(entry_well_placed(slot as int, e));
    let down = e.down;
    assert(down & 0x7F == down) by (bit_vector)
        requires
            down < 0x80,
    ;
    if e.up != e.down {
        let up = e.up;
        assert(up & 0x7F == down) by (bit_vector)
            requires
                down < 0x80 && up == down + 0x80,
        ;
    }
}

} // verus!
