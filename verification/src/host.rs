//! Host-side driver variant: decodes 3-byte `(marker, modifier, scan code)`
//! frames arriving over the serial link, resolves them against a key map
//! loaded from configuration, and tracks the chain of modifier presses
//! within a fixed time window. The serial transport itself lives outside
//! this crate.

use vstd::prelude::*;

use crate::errors::A2PiError;

verus! {

/// The frame marker of a keyboard payload.
pub const KB_FRAME_MARKER: u8 = 0x82;

/// Milliseconds a chain of modifier presses may span before the session
/// resets on the next key down.
pub const MULTI_MODIFIER_KEY_CHAIN_TIMEOUT_MS: u16 = 500;

/// The modifier switch combinations the host variant distinguishes, each
/// carrying its scan code.
#[derive(Clone, Copy, Debug, PartialEq, Eq, Structural)]
pub enum Modifiers {
    Bare(u8),
    OpenApple(u8),
    ClosedApple(u8),
    OpenClosedApple(u8),
}

/// The combination a modifier scan code names, if the code is defined:
/// 0x00 is bare, 0x40 the open Apple key, 0x80 the closed one, 0xC0 both.
pub open spec fn spec_host_modifiers_get(code: u8) -> Option<Modifiers> {
    if code == 0x00 {
        Some(Modifiers::Bare(0x00))
    } else if code == 0x40 {
        Some(Modifiers::OpenApple(0x40))
    } else if code == 0x80 {
        Some(Modifiers::ClosedApple(0x80))
    } else if code == 0xC0 {
        Some(Modifiers::OpenClosedApple(0xC0))
    } else {
        Option::None
    }
}

/// The scan code a combination carries.
pub open spec fn spec_host_modifier_inner(m: Modifiers) -> u8 {
    match m {
        Modifiers::Bare(c) => c,
        Modifiers::OpenApple(c) => c,
        Modifiers::ClosedApple(c) => c,
        Modifiers::OpenClosedApple(c) => c,
    }
}

impl Modifiers {
    /// Resolves a modifier scan code; `None` exactly on undefined codes.
    pub fn get(modifier_scan_code: u8) -> (r: Option<Modifiers>)
        ensures
            r == spec_host_modifiers_get(modifier_scan_code),
    {
        match modifier_scan_code {
            0x00 => Some(Modifiers::Bare(0x00)),
            0x40 => Some(Modifiers::OpenApple(0x40)),
            0x80 => Some(Modifiers::ClosedApple(0x80)),
            0xC0 => Some(Modifiers::OpenClosedApple(0xC0)),
            _ => None,
        }
    }

    /// The scan code this combination carries.
    pub fn inner(self) -> (r: u8)
        ensures
            r == spec_host_modifier_inner(self),
    {
        match self {
            Modifiers::Bare(c) => c,
            Modifiers::OpenApple(c) => c,
            Modifiers::ClosedApple(c) => c,
            Modifiers::OpenClosedApple(c) => c,
        }
    }

    /// The name of the combination.
    pub fn outer_as_string(self) -> (r: String)
        ensures
            self is Bare ==> r@ == "bare"@,
            self is OpenApple ==> r@ == "open"@,
            self is ClosedApple ==> r@ == "closed"@,
            self is OpenClosedApple ==> r@ == "open_closed"@,
    {
        match self {
            Modifiers::Bare(_) => String::from_str("bare"),
            Modifiers::OpenApple(_) => String::from_str("open"),
            Modifiers::ClosedApple(_) => String::from_str("closed"),
            Modifiers::OpenClosedApple(_) => String::from_str("open_closed"),
        }
    }
}

/// Copies a string, keeping its characters.
fn clone_string(s: &String) -> (r: String)
    ensures
        r@ == s@,
{
    String::from_str(s.as_str())
}

/// A decoded key transition: the modifier combination, the raw scan code,
/// and the rendered key text from the map.
#[derive(Debug)]
pub enum KbDriverInput {
    KeyDown(Modifiers, u8, String),
    KeyUp(Modifiers, u8, String),
}

impl Clone for KbDriverInput {
    /// Clones keep the direction and the fields.
    fn clone(&self) -> (r: Self)
        ensures
            self matches KbDriverInput::KeyDown(m, c, s) ==> (r matches KbDriverInput::KeyDown(
                m2,
                c2,
                s2,
            ) && m2 == m && c2 == c && s2@ == s@),
            self matches KbDriverInput::KeyUp(m, c, s) ==> (r matches KbDriverInput::KeyUp(
                m2,
                c2,
                s2,
            ) && m2 == m && c2 == c && s2@ == s@),
    {
        match self {
            KbDriverInput::KeyDown(m, c, s) => KbDriverInput::KeyDown(*m, *c, clone_string(s)),
            KbDriverInput::KeyUp(m, c, s) => KbDriverInput::KeyUp(*m, *c, clone_string(s)),
        }
    }
}

impl KbDriverInput {
    /// Swaps the direction of a transition, keeping its fields.
    pub fn invert(self) -> (r: Self)
        ensures
            self matches KbDriverInput::KeyDown(m, c, s) ==> r == KbDriverInput::KeyUp(m, c, s),
            self matches KbDriverInput::KeyUp(m, c, s) ==> r == KbDriverInput::KeyDown(m, c, s),
    {
        match self {
            KbDriverInput::KeyUp(m, c, s) => KbDriverInput::KeyDown(m, c, s),
            KbDriverInput::KeyDown(m, c, s) => KbDriverInput::KeyUp(m, c, s),
        }
    }

    /// Decodes a 3-byte frame against the key map. A frame whose marker is
    /// not the keyboard marker is an invalid payload; an undefined modifier
    /// byte an invalid modifier; a scan code the map cannot resolve an
    /// invalid input. A resolved frame becomes a key-up transition when the
    /// scan code hit its slot exactly, and a key-down transition when only
    /// the masked form resolved.
    pub fn from_apple_ii(payload: &Vec<u8>, driver: &KbDriver) -> (r: Result<
        Option<KbDriverInput>,
        A2PiError,
    >)
        requires
            payload@.len() == 3,
            driver.key_map.wf(),
        ensures
            payload@[0] != KB_FRAME_MARKER ==> r == Result::<
                Option<KbDriverInput>,
                A2PiError,
            >::Err(A2PiError::InvalidKBPayload),
            payload@[0] == KB_FRAME_MARKER && spec_host_modifiers_get(payload@[1]) is None ==> r
                == Result::<Option<KbDriverInput>, A2PiError>::Err(A2PiError::InvalidKBModifier),
            payload@[0] == KB_FRAME_MARKER && spec_host_modifiers_get(payload@[1]) is Some
                && driver.key_map.spec_lookup(payload@[2]) is None ==> r == Result::<
                Option<KbDriverInput>,
                A2PiError,
            >::Err(A2PiError::InvalidKBInput),
            (payload@[0] == KB_FRAME_MARKER && spec_host_modifiers_get(payload@[1]) is Some
                && driver.key_map.spec_lookup(payload@[2]) is Some) ==> (r matches
                Result::Ok(inp) && inp matches Some(input) && {
                let m = spec_host_modifiers_get(payload@[1])->0;
                let found = driver.key_map.spec_lookup(payload@[2])->0;
                if found.0 {
                    input matches KbDriverInput::KeyUp(m2, c2, s2) && m2 == m && c2 == payload@[2]
                        && s2@ == found.1
                } else {
                    input matches KbDriverInput::KeyDown(m2, c2, s2) && m2 == m && c2
                        == payload@[2] && s2@ == found.1
                }
            }),
    {
        if payload[0] != KB_FRAME_MARKER {
            return Err(A2PiError::InvalidKBPayload);
        }
        let modifier_got = Modifiers::get(payload[1]);
        if modifier_got.is_none() {
            return Err(A2PiError::InvalidKBModifier);
        }
        let modifier = modifier_got.unwrap();

        let (is_key_up, mapped_key) = driver.lookup_scan_code(payload[2]);
        match mapped_key {
            Some(key) => {
                if is_key_up {
                    Ok(Some(KbDriverInput::KeyUp(modifier, payload[2], key.key)))
                } else {
                    Ok(Some(KbDriverInput::KeyDown(modifier, payload[2], key.key)))
                }
            },
            None => Err(A2PiError::InvalidKBInput),
        }
    }
}

/// A host-side key definition: the rendered key text and the recorded
/// action text, as the configuration names them.
#[derive(Debug)]
pub struct Key {
    pub key: String,
    pub action: String,
}

impl Clone for Key {
    /// Clones keep both texts.
    fn clone(&self) -> (r: Self)
        ensures
            r.key@ == self.key@,
            r.action@ == self.action@,
    {
        Key { key: clone_string(&self.key), action: clone_string(&self.action) }
    }
}

/// The character with any ASCII upper-case letter lowered; every other
/// character stays itself.
pub open spec fn ascii_lower_char(c: char) -> char {
    if c == 'A' {
        'a'
    } else if c == 'B' {
        'b'
    } else if c == 'C' {
        'c'
    } else if c == 'D' {
        'd'
    } else if c == 'E' {
        'e'
    } else if c == 'F' {
        'f'
    } else if c == 'G' {
        'g'
    } else if c == 'H' {
        'h'
    } else if c == 'I' {
        'i'
    } else if c == 'J' {
        'j'
    } else if c == 'K' {
        'k'
    } else if c == 'L' {
        'l'
    } else if c == 'M' {
        'm'
    } else if c == 'N' {
        'n'
    } else if c == 'O' {
        'o'
    } else if c == 'P' {
        'p'
    } else if c == 'Q' {
        'q'
    } else if c == 'R' {
        'r'
    } else if c == 'S' {
        's'
    } else if c == 'T' {
        't'
    } else if c == 'U' {
        'u'
    } else if c == 'V' {
        'v'
    } else if c == 'W' {
        'w'
    } else if c == 'X' {
        'x'
    } else if c == 'Y' {
        'y'
    } else if c == 'Z' {
        'z'
    } else {
        c
    }
}

/// The text with every ASCII upper-case letter lowered.
pub open spec fn ascii_lower_seq(s: Seq<char>) -> Seq<char> {
    s.map_values(|c: char| ascii_lower_char(c))
}

fn lower_str_of(c: char) -> (r: Option<&'static str>)
    ensures
        r matches Some(ls) ==> ls@ =~= seq![ascii_lower_char(c)],
        r is None ==> ascii_lower_char(c) == c,
{
    proof {
        reveal_strlit("a");
        reveal_strlit("b");
        reveal_strlit("c");
        reveal_strlit("d");
        reveal_strlit("e");
        reveal_strlit("f");
        reveal_strlit("g");
        reveal_strlit("h");
        reveal_strlit("i");
        reveal_strlit("j");
        reveal_strlit("k");
        reveal_strlit("l");
        reveal_strlit("m");
        reveal_strlit("n");
        reveal_strlit("o");
        reveal_strlit("p");
        reveal_strlit("q");
        reveal_strlit("r");
        reveal_strlit("s");
        reveal_strlit("t");
        reveal_strlit("u");
        reveal_strlit("v");
        reveal_strlit("w");
        reveal_strlit("x");
        reveal_strlit("y");
        reveal_strlit("z");
    }
    match c {
        'A' => Some("a"),
        'B' => Some("b"),
        'C' => Some("c"),
        'D' => Some("d"),
        'E' => Some("e"),
        'F' => Some("f"),
        'G' => Some("g"),
        'H' => Some("h"),
        'I' => Some("i"),
        'J' => Some("j"),
        'K' => Some("k"),
        'L' => Some("l"),
        'M' => Some("m"),
        'N' => Some("n"),
        'O' => Some("o"),
        'P' => Some("p"),
        'Q' => Some("q"),
        'R' => Some("r"),
        'S' => Some("s"),
        'T' => Some("t"),
        'U' => Some("u"),
        'V' => Some("v"),
        'W' => Some("w"),
        'X' => Some("x"),
        'Y' => Some("y"),
        'Z' => Some("z"),
        _ => None,
    }
}

impl Key {
    /// The action text with every ASCII upper-case letter lowered.
    pub fn to_ascii(self) -> (r: String)
        ensures
            r@ == ascii_lower_seq(self.action@),
    {
        proof {
            reveal_strlit("");
        }
        let text = self.action.as_str();
        let len = text.unicode_len();
        let mut out = String::from_str("");
        let mut i: usize = 0;
        #[verifier::loop_isolation(false)]
        while i < len
            invariant
                i <= len,
                len == text@.len(),
                out@ == ascii_lower_seq(text@.take(i as int)),
            decreases len - i,
        {
            let c = text.get_char(i);
            match lower_str_of(c) {
                Some(lowered) => out.append(lowered),
                None => out.append(text.substring_char(i, i + 1)),
            }
            proof {
                assert(text@.subrange(i as int, i + 1) =~= seq![text@[i as int]]);
                assert(out@ =~= ascii_lower_seq(text@.take(i + 1)));
            }
            i += 1;
        }
        proof {
            assert(text@.take(len as int) =~= text@);
        }
        out
    }
}

/// The host-side key map: one optional definition per scan code byte.
#[derive(Debug)]
pub struct KeyMap {
    pub layout: Vec<Option<Key>>,
}

impl KeyMap {
    /// The map owns a slot for every scan code byte.
    pub open spec fn wf(self) -> bool {
        self.layout@.len() == 256
    }

    /// The definition at a slot, by its texts.
    pub open spec fn slot_texts(self, scan_code: u8) -> Option<(Seq<char>, Seq<char>)> {
        match self.layout@[scan_code as int] {
            Some(k) => Some((k.key@, k.action@)),
            None => None,
        }
    }

    /// What `lookup_scan_code` resolves for a raw scan code: the exact slot
    /// when it is filled (an exact, key-up hit), else the slot of the
    /// masked form (a key-down hit), else nothing. The flag is true exactly
    /// on an exact hit; the texts are the key text and the action text of
    /// the slot that hit.
    pub open spec fn spec_lookup(self, scan_code: u8) -> Option<(bool, Seq<char>, Seq<char>)> {
        match self.slot_texts(scan_code) {
            Some(t) => Some((true, t.0, t.1)),
            None => match self.slot_texts(scan_code & 0x7F) {
                Some(t) => Some((false, t.0, t.1)),
                None => None,
            },
        }
    }

    /// An empty map: every slot free.
    pub fn empty() -> (r: KeyMap)
        ensures
            r.wf(),
            forall|s: u8| r.slot_texts(s) is None,
    {
        let mut layout: Vec<Option<Key>> = Vec::new();
        while layout.len() < 256
            invariant
                layout@.len() <= 256,
                forall|i: int| 0 <= i < layout@.len() ==> layout@[i] is None,
            decreases 256 - layout.len(),
        {
            layout.push(None);
        }
        KeyMap { layout }
    }

    /// Places a definition at the slot of a scan code, replacing what was
    /// there.
    pub fn set_entry(&mut self, scan_code: u8, key: Key)
        requires
            old(self).wf(),
        ensures
            final(self).wf(),
            final(self).slot_texts(scan_code) == Some((key.key@, key.action@)),
            forall|s: u8|
                s != scan_code ==> #[trigger] final(self).slot_texts(s) == old(self).slot_texts(
                    s,
                ),
    {
        self.layout.set(scan_code as usize, Some(key));
    }

    /// The definition stored for a scan code byte, if any.
    pub fn find_scan_code(&self, scan_code: u8) -> (r: Option<Key>)
        requires
            self.wf(),
        ensures
            r is Some <==> self.slot_texts(scan_code) is Some,
            r matches Some(k) ==> self.slot_texts(scan_code) == Some((k.key@, k.action@)),
    {
        match &self.layout[scan_code as usize] {
            Some(k) => Some(k.clone()),
            None => None,
        }
    }
}

/// The host-side driver: the key map loaded from configuration.
#[derive(Debug)]
pub struct KbDriver {
    pub key_map: KeyMap,
}

impl KbDriver {
    /// A driver over an already loaded key map.
    pub fn init(key_map: KeyMap) -> (r: KbDriver)
        ensures
            r.key_map == key_map,
    {
        KbDriver { key_map }
    }

    /// Resolves a raw scan code: first the exact slot (a key-up hit, since
    /// up codes always have their own slot), then the slot of the masked
    /// down-code form. The flag says whether the exact slot hit.
    pub fn lookup_scan_code(&self, scan_code: u8) -> (r: (bool, Option<Key>))
        requires
            self.key_map.wf(),
        ensures
            r.1 is Some <==> self.key_map.spec_lookup(scan_code) is Some,
            self.key_map.spec_lookup(scan_code) matches Some(found) ==> {
                &&& r.0 == found.0
                &&& r.1 matches Some(k) && k.key@ == found.1 && k.action@ == found.2
            },
            self.key_map.spec_lookup(scan_code) is None ==> r.0 == false,
    {
        match self.key_map.find_scan_code(scan_code) {
            Some(key) => (true, Some(key)),
            None => {
                let mask = scan_code & crate::input::KEY_ASCII;
                (false, self.key_map.find_scan_code(mask))
            },
        }
    }
}

/// The chain state of the host driver: the epoch of the last modified key
/// down, and the modifiers, key codes and inputs of the current chain.
pub struct KbDriverState {
    pub last_press_epoch_ms: Option<u128>,
    pub active_modifiers: Vec<Modifiers>,
    pub active_keys: Vec<u8>,
    pub chained_key_inputs: Vec<KbDriverInput>,
}

impl KbDriverState {
    /// A fresh chain: no epoch, nothing active.
    pub fn reset() -> (r: KbDriverState)
        ensures
            r.last_press_epoch_ms is None,
            r.active_modifiers@.len() == 0,
            r.active_keys@.len() == 0,
            r.chained_key_inputs@.len() == 0,
    {
        KbDriverState {
            last_press_epoch_ms: None,
            active_modifiers: Vec::new(),
            active_keys: Vec::new(),
            chained_key_inputs: Vec::new(),
        }
    }

    /// Feeds one decoded transition at the given epoch. A key down outside
    /// the chain window resets the chain first, a modified key down opens a
    /// window, and every key down joins the chain. A key up clears the
    /// chain only when no window is open; within a window it is a no-op, so
    /// chained modifier presses survive their releases.
    pub fn process_input(&mut self, input: KbDriverInput, now_ms: u128)
        ensures
            input matches KbDriverInput::KeyDown(modifier, key_code, _s) ==> ({
                let timed_out = old(self).last_press_epoch_ms matches Some(last) && now_ms > last
                    && now_ms - last > MULTI_MODIFIER_KEY_CHAIN_TIMEOUT_MS as u128;
                let opened = old(self).last_press_epoch_ms is None && spec_host_modifier_inner(
                    modifier,
                ) != 0;
                &&& final(self).last_press_epoch_ms == (if timed_out {
                    Option::<u128>::None
                } else if opened {
                    Some(now_ms)
                } else {
                    old(self).last_press_epoch_ms
                })
                &&& final(self).active_modifiers@ == (if timed_out {
                    Seq::empty().push(modifier)
                } else {
                    old(self).active_modifiers@.push(modifier)
                })
                &&& final(self).active_keys@ == (if timed_out {
                    Seq::empty().push(key_code)
                } else {
                    old(self).active_keys@.push(key_code)
                })
                &&& final(self).chained_key_inputs@ == (if timed_out {
                    Seq::empty().push(input)
                } else {
                    old(self).chained_key_inputs@.push(input)
                })
            }),
            input is KeyUp ==> ({
                if old(self).last_press_epoch_ms is Some {
                    *final(self) == *old(self)
                } else {
                    &&& final(self).last_press_epoch_ms is None
                    &&& final(self).active_modifiers@.len() == 0
                    &&& final(self).active_keys@.len() == 0
                    &&& final(self).chained_key_inputs@.len() == 0
                }
            }),
    {
        match &input {
            KbDriverInput::KeyDown(modifier, key_code, _key_character) => {
                let modifier = *modifier;
                let key_code = *key_code;
                match self.last_press_epoch_ms {
                    Some(last_epoch) => {
                        if now_ms > last_epoch && now_ms - last_epoch
                            > MULTI_MODIFIER_KEY_CHAIN_TIMEOUT_MS as u128 {
                            self.last_press_epoch_ms = None;
                            self.active_modifiers = Vec::new();
                            self.active_keys = Vec::new();
                            self.chained_key_inputs = Vec::new();
                        }
                    },
                    None => {
                        if modifier.inner() != 0x00 {
                            self.last_press_epoch_ms = Some(now_ms);
                        }
                    },
                }
                self.active_modifiers.push(modifier);
                self.active_keys.push(key_code);
                self.chained_key_inputs.push(input);
            },
            KbDriverInput::KeyUp(_m, _c, _s) => {
                if self.last_press_epoch_ms.is_none() {
                    self.last_press_epoch_ms = None;
                    self.active_modifiers = Vec::new();
                    self.active_keys = Vec::new();
                    self.chained_key_inputs = Vec::new();
                }
            },
        }
    }
}

} // verus!
